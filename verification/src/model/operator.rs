//! Operators: the nodes of a graph.

use core::convert::Infallible;
use vstd::prelude::*;
use super::attribute::{Attribute, Value};
use super::table::Table;
use super::tensor::{Tensor, TensorView};

verus! {

/// What an operator is: its name, what it computes, and its tensors and
/// attributes by tag.
pub struct OperatorView {
    pub name: Seq<char>,
    pub kind: Seq<char>,
    pub inputs: Map<Seq<char>, TensorView>,
    pub outputs: Map<Seq<char>, TensorView>,
    pub attributes: Map<Seq<char>, Value>,
}

impl OperatorView {
    /// An operator without tensors and attributes.
    pub open spec fn bare(name: Seq<char>, kind: Seq<char>) -> OperatorView {
        OperatorView {
            name,
            kind,
            inputs: Map::empty(),
            outputs: Map::empty(),
            attributes: Map::empty(),
        }
    }

    /// This operator with `input` under `tag`.
    pub open spec fn with_input(self, tag: Seq<char>, input: TensorView) -> OperatorView {
        OperatorView { inputs: self.inputs.insert(tag, input), ..self }
    }

    /// This operator with `output` under `tag`.
    pub open spec fn with_output(self, tag: Seq<char>, output: TensorView) -> OperatorView {
        OperatorView { outputs: self.outputs.insert(tag, output), ..self }
    }

    /// This operator with `attr` under `tag`.
    pub open spec fn with_attribute(self, tag: Seq<char>, attr: Value) -> OperatorView {
        OperatorView { attributes: self.attributes.insert(tag, attr), ..self }
    }
}

/// What the tensors of a table are.
pub open spec fn tensor_views(m: Map<Seq<char>, Tensor>) -> Map<Seq<char>, TensorView> {
    m.map_values(|t: Tensor| t@)
}

/// What the attributes of a table hold.
pub open spec fn attribute_values(m: Map<Seq<char>, Attribute>) -> Map<Seq<char>, Value> {
    m.map_values(|a: Attribute| a@)
}

/// A named node of a graph: what it computes, its input and output tensors by
/// tag, and its attributes by name.
#[derive(Debug)]
pub struct Operator {
    name: String,
    kind: String,
    inputs: Table<Tensor>,
    outputs: Table<Tensor>,
    attributes: Table<Attribute>,
}

impl View for Operator {
    type V = OperatorView;

    closed spec fn view(&self) -> OperatorView {
        OperatorView {
            name: self.name@,
            kind: self.kind@,
            inputs: tensor_views(self.inputs@),
            outputs: tensor_views(self.outputs@),
            attributes: attribute_values(self.attributes@),
        }
    }
}

impl Operator {
    /// An operator without tensors and attributes.
    pub fn new(name: &str, kind: &str) -> (r: Self)
        ensures
            r@ == OperatorView::bare(name@, kind@),
    {
        let r = Operator {
            name: String::from_str(name),
            kind: String::from_str(kind),
            inputs: Table::new(),
            outputs: Table::new(),
            attributes: Table::new(),
        };
        assert(r@.inputs =~= Map::empty());
        assert(r@.outputs =~= Map::empty());
        assert(r@.attributes =~= Map::empty());
        r
    }

    /// Puts `input` under `tag` among the inputs, in place of what the tag
    /// held before.
    pub fn set_input(&mut self, tag: &str, input: Tensor)
        ensures
            final(self)@ == old(self)@.with_input(tag@, input@),
    {
        self.inputs.insert(String::from_str(tag), input);
        assert(self@.inputs =~= old(self)@.inputs.insert(tag@, input@));
    }

    /// Puts `output` under `tag` among the outputs, in place of what the tag
    /// held before.
    pub fn set_output(&mut self, tag: &str, output: Tensor)
        ensures
            final(self)@ == old(self)@.with_output(tag@, output@),
    {
        self.outputs.insert(String::from_str(tag), output);
        assert(self@.outputs =~= old(self)@.outputs.insert(tag@, output@));
    }

    /// Puts `attr` under `tag` among the attributes, in place of what the tag
    /// held before.
    pub fn set_attribute(&mut self, tag: &str, attr: Attribute)
        ensures
            final(self)@ == old(self)@.with_attribute(tag@, attr@),
    {
        self.attributes.insert(String::from_str(tag), attr);
        assert(self@.attributes =~= old(self)@.attributes.insert(tag@, attr@));
    }

    /// This operator with `input` under `tag`. It never fails: a tag that is
    /// in use gets the new tensor.
    pub fn add_input(self, tag: &str, input: Tensor) -> (r: Result<Self, Infallible>)
        ensures
            r matches Ok(op) && op@ == self@.with_input(tag@, input@),
    {
        let mut op = self;
        op.set_input(tag, input);
        Ok(op)
    }

    /// This operator with `output` under `tag`. It never fails: a tag that is
    /// in use gets the new tensor.
    pub fn add_output(self, tag: &str, output: Tensor) -> (r: Result<Self, Infallible>)
        ensures
            r matches Ok(op) && op@ == self@.with_output(tag@, output@),
    {
        let mut op = self;
        op.set_output(tag, output);
        Ok(op)
    }

    /// This operator with `attr` under `tag`. It never fails: a tag that is
    /// in use gets the new attribute.
    pub fn add_attribute(self, tag: &str, attr: Attribute) -> (r: Result<Self, Infallible>)
        ensures
            r matches Ok(op) && op@ == self@.with_attribute(tag@, attr@),
    {
        let mut op = self;
        op.set_attribute(tag, attr);
        Ok(op)
    }

    pub fn name(&self) -> (r: &String)
        ensures
            r@ == self@.name,
    {
        &self.name
    }

    /// What the operator computes, as in `"Add"`.
    pub fn kind(&self) -> (r: &String)
        ensures
            r@ == self@.kind,
    {
        &self.kind
    }

    /// The input tensors by tag.
    pub fn inputs(&self) -> (r: &Table<Tensor>)
        ensures
            tensor_views(r@) == self@.inputs,
    {
        &self.inputs
    }

    /// The input tensor under `tag`, if there is one.
    pub fn get_input(&self, tag: &str) -> (r: Option<&Tensor>)
        ensures
            r is Some == self@.inputs.contains_key(tag@),
            r matches Some(t) ==> t@ == self@.inputs[tag@],
    {
        self.inputs.get(tag)
    }

    /// The output tensors by tag.
    pub fn outputs(&self) -> (r: &Table<Tensor>)
        ensures
            tensor_views(r@) == self@.outputs,
    {
        &self.outputs
    }

    /// The output tensor under `tag`, if there is one.
    pub fn get_output(&self, tag: &str) -> (r: Option<&Tensor>)
        ensures
            r is Some == self@.outputs.contains_key(tag@),
            r matches Some(t) ==> t@ == self@.outputs[tag@],
    {
        self.outputs.get(tag)
    }

    /// The attributes by name.
    pub fn attributes(&self) -> (r: &Table<Attribute>)
        ensures
            attribute_values(r@) == self@.attributes,
    {
        &self.attributes
    }

    /// The attribute called `tag`, if there is one.
    pub fn get_attribute(&self, tag: &str) -> (r: Option<&Attribute>)
        ensures
            r is Some == self@.attributes.contains_key(tag@),
            r matches Some(a) ==> a@ == self@.attributes[tag@],
    {
        self.attributes.get(tag)
    }
}

} // verus!

//! What holds of every graph that the loader builds.

use vstd::prelude::*;
use crate::error::LoadErrorView;
use crate::loader::transform::{
    attr_value, drained, external_bytes, external_path, initializer_tensor, input_source,
    inputs_resolved, inits_left, is_external, names_of, op_built, scan_attributes, scan_inputs,
    scan_outputs,
};
use crate::loader::{
    entry_paths, external_paths_of, graph_built, initializer_table, node_name, reads_files,
    value_infos_of, value_table, walk,
};
use crate::model::data::DataView;
use crate::model::graph::GraphView;
use crate::model::operator::OperatorView;
use crate::model::tensor::TensorView;
use crate::pb::{
    AttributeProto, GraphProto, NodeProto, StringStringEntryProto, TensorProto, ValueInfoProto,
};
use crate::text::{decimal, lemma_decimal_injective};

verus! {

/// The names of the inputs of the nodes before the `k`-th, in the order in
/// which the loader comes to them.
pub open spec fn inputs_before(nodes: Seq<NodeProto>, k: int) -> Seq<Seq<char>>
    decreases k,
{
    if k <= 0 {
        Seq::empty()
    } else {
        inputs_before(nodes, k - 1) + names_of(nodes[k - 1].input@)
    }
}

/// Whether the `i`-th input of the `k`-th node has a tensor: its name is a
/// declared value, or it is an initializer that no input before it names.
pub open spec fn input_resolves(
    nodes: Seq<NodeProto>,
    k: int,
    i: int,
    inits: Map<Seq<char>, TensorView>,
    infos: Map<Seq<char>, TensorView>,
) -> bool {
    let names = names_of(nodes[k].input@);
    let n = names[i];
    infos.contains_key(n) || (inits.contains_key(n) && !inputs_before(nodes, k).contains(n)
        && !names.take(i).contains(n))
}

/// Whether the `i`-th output of the `k`-th node is a declared value.
pub open spec fn output_resolves(
    nodes: Seq<NodeProto>,
    k: int,
    i: int,
    infos: Map<Seq<char>, TensorView>,
) -> bool {
    infos.contains_key(names_of(nodes[k].output@)[i])
}

/// Whether the `i`-th attribute of the `k`-th node can be read.
pub open spec fn attribute_resolves(nodes: Seq<NodeProto>, k: int, i: int) -> bool {
    attr_value(nodes[k].attribute@[i]) is Some
}

/// Whether the `k`-th node gives an operator: each input and each output has
/// its tensor, and each attribute can be read.
pub open spec fn node_resolves(
    nodes: Seq<NodeProto>,
    k: int,
    inits: Map<Seq<char>, TensorView>,
    infos: Map<Seq<char>, TensorView>,
) -> bool {
    &&& forall|i: int|
        0 <= i < nodes[k].input@.len() ==> #[trigger] input_resolves(nodes, k, i, inits, infos)
    &&& forall|i: int|
        0 <= i < nodes[k].output@.len() ==> #[trigger] output_resolves(nodes, k, i, infos)
    &&& forall|i: int|
        0 <= i < nodes[k].attribute@.len() ==> #[trigger] attribute_resolves(nodes, k, i)
}

/// Whether each of the nodes from the `k`-th on gives an operator.
pub open spec fn resolvable_from(
    nodes: Seq<NodeProto>,
    k: int,
    inits: Map<Seq<char>, TensorView>,
    infos: Map<Seq<char>, TensorView>,
) -> bool {
    forall|j: int| k <= j < nodes.len() ==> #[trigger] node_resolves(nodes, j, inits, infos)
}

/// The names of the operators of the nodes, in the order of the nodes.
pub open spec fn operator_names(nodes: Seq<NodeProto>) -> Seq<Seq<char>> {
    Seq::new(nodes.len(), |k: int| node_name(k as nat, nodes[k]))
}

/// Whether no node after the `j`-th gives an operator of the same name.
pub open spec fn last_of_its_name(nodes: Seq<NodeProto>, j: int) -> bool {
    forall|l: int|
        j < l < nodes.len() ==> #[trigger] operator_names(nodes)[l] != operator_names(nodes)[j]
}

/// The initializers that the `k`-th node finds: all but those that the
/// inputs of the nodes before it name.
pub open spec fn inits_at(
    nodes: Seq<NodeProto>,
    k: int,
    inits: Map<Seq<char>, TensorView>,
) -> Map<Seq<char>, TensorView> {
    drained(inits, inputs_before(nodes, k))
}

/// An initializer is left exactly where none of the names took it.
pub proof fn lemma_drained_contains(
    inits: Map<Seq<char>, TensorView>,
    names: Seq<Seq<char>>,
    n: Seq<char>,
)
    ensures
        drained(inits, names).contains_key(n) <==> inits.contains_key(n) && !names.contains(n),
        drained(inits, names).contains_key(n) ==> drained(inits, names)[n] == inits[n],
{
}

/// Taking names out in two rounds leaves what taking them out in one does.
pub proof fn lemma_drained_twice(
    inits: Map<Seq<char>, TensorView>,
    a: Seq<Seq<char>>,
    b: Seq<Seq<char>>,
)
    ensures
        drained(drained(inits, a), b) == drained(inits, a + b),
{
    assert forall|n: Seq<char>| (a + b).contains(n) <==> a.contains(n) || b.contains(n) by {
        if a.contains(n) {
            let at = a.index_of(n);
            assert((a + b)[at] == n);
        }
        if b.contains(n) {
            let at = b.index_of(n);
            assert((a + b)[a.len() + at] == n);
        }
        if (a + b).contains(n) {
            let at = (a + b).index_of(n);
            if at < a.len() {
                assert(a[at] == n);
            } else {
                assert(b[at - a.len()] == n);
            }
        }
    }
    assert(drained(drained(inits, a), b) =~= drained(inits, a + b));
}

/// The inputs from the `i`-th on all get their place exactly where each of
/// them has a tensor; the operator keeps its name.
pub proof fn lemma_scan_inputs(
    op: OperatorView,
    names: Seq<Seq<char>>,
    i: int,
    inits: Map<Seq<char>, TensorView>,
    infos: Map<Seq<char>, TensorView>,
)
    requires
        0 <= i <= names.len(),
    ensures
        scan_inputs(op, names, i, inits, infos) is Ok <==> forall|j: int|
            i <= j < names.len() ==> (#[trigger] input_source(names, j, inits, infos)) is Some,
        scan_inputs(op, names, i, inits, infos) matches Ok(r) ==> r.name == op.name
            && inputs_resolved(names, i, inits, infos) == names.len(),
    decreases names.len() - i,
{
    if i < names.len() {
        match input_source(names, i, inits, infos) {
            Some(t) => {
                lemma_scan_inputs(op.with_input(decimal(i as nat), t), names, i + 1, inits, infos);
            },
            None => {},
        }
    }
}

/// The outputs from the `i`-th on all get their place exactly where each of
/// them is a declared value; the operator keeps its name.
pub proof fn lemma_scan_outputs(
    op: OperatorView,
    names: Seq<Seq<char>>,
    i: int,
    infos: Map<Seq<char>, TensorView>,
)
    requires
        0 <= i <= names.len(),
    ensures
        scan_outputs(op, names, i, infos) is Ok <==> forall|j: int|
            i <= j < names.len() ==> infos.contains_key(#[trigger] names[j]),
        scan_outputs(op, names, i, infos) matches Ok(r) ==> r.name == op.name,
    decreases names.len() - i,
{
    if i < names.len() {
        if infos.contains_key(names[i]) {
            lemma_scan_outputs(
                op.with_output(decimal(i as nat), infos[names[i]]),
                names,
                i + 1,
                infos,
            );
        }
    }
}

/// The attributes from the `i`-th on all get their place exactly where each
/// of them can be read; the operator keeps its name.
pub proof fn lemma_scan_attributes(op: OperatorView, attrs: Seq<AttributeProto>, i: int)
    requires
        0 <= i <= attrs.len(),
    ensures
        scan_attributes(op, attrs, i) is Ok <==> forall|j: int|
            i <= j < attrs.len() ==> attr_value(#[trigger] attrs[j]) is Some,
        scan_attributes(op, attrs, i) matches Ok(r) ==> r.name == op.name,
    decreases attrs.len() - i,
{
    if i < attrs.len() {
        match attr_value(attrs[i]) {
            Some(value) => {
                lemma_scan_attributes(op.with_attribute(attrs[i].name@, value), attrs, i + 1);
            },
            None => {},
        }
    }
}

/// The `k`-th node gives an operator exactly where it resolves. The operator
/// has the name asked for, and the initializers that it leaves are those
/// that the next node is to find.
pub proof fn lemma_op_built(
    nodes: Seq<NodeProto>,
    k: int,
    inits: Map<Seq<char>, TensorView>,
    infos: Map<Seq<char>, TensorView>,
)
    requires
        0 <= k < nodes.len(),
    ensures
        op_built(node_name(k as nat, nodes[k]), nodes[k], inits_at(nodes, k, inits), infos) is Ok
            <==> node_resolves(nodes, k, inits, infos),
        op_built(
            node_name(k as nat, nodes[k]),
            nodes[k],
            inits_at(nodes, k, inits),
            infos,
        ) matches Ok(op) ==> op.name == node_name(k as nat, nodes[k]) && inits_left(
            nodes[k],
            inits_at(nodes, k, inits),
            infos,
        ) == inits_at(nodes, k + 1, inits),
{
    let node = nodes[k];
    let name = node_name(k as nat, node);
    let here = inits_at(nodes, k, inits);
    let inputs = names_of(node.input@);
    let outputs = names_of(node.output@);
    let start = OperatorView::bare(name, node.op_type@);
    lemma_scan_inputs(start, inputs, 0, here, infos);
    assert forall|i: int|
        #![trigger input_source(inputs, i, here, infos)]
        #![trigger input_resolves(nodes, k, i, inits, infos)]
        0 <= i < inputs.len() implies (input_source(inputs, i, here, infos) is Some
        <==> input_resolves(nodes, k, i, inits, infos)) by {
        let n = inputs[i];
        lemma_drained_contains(here, inputs.take(i), n);
        lemma_drained_contains(inits, inputs_before(nodes, k), n);
    }
    match scan_inputs(start, inputs, 0, here, infos) {
        Ok(with_inputs) => {
            lemma_scan_outputs(with_inputs, outputs, 0, infos);
            assert forall|i: int|
                #![trigger outputs[i]]
                #![trigger output_resolves(nodes, k, i, infos)]
                0 <= i < outputs.len() implies (infos.contains_key(outputs[i])
                <==> output_resolves(nodes, k, i, infos)) by {}
            match scan_outputs(with_inputs, outputs, 0, infos) {
                Ok(with_outputs) => {
                    lemma_scan_attributes(with_outputs, node.attribute@, 0);
                    assert forall|i: int|
                        #![trigger node.attribute@[i]]
                        #![trigger attribute_resolves(nodes, k, i)]
                        0 <= i < node.attribute@.len() implies (attr_value(node.attribute@[i])
                        is Some <==> attribute_resolves(nodes, k, i)) by {}
                    if scan_attributes(with_outputs, node.attribute@, 0) is Err {
                        let i = choose|i: int|
                            0 <= i < node.attribute@.len() && attr_value(
                                #[trigger] node.attribute@[i],
                            ) is None;
                        assert(!attribute_resolves(nodes, k, i));
                    }
                },
                Err(_) => {
                    let i = choose|i: int|
                        0 <= i < outputs.len() && !infos.contains_key(#[trigger] outputs[i]);
                    assert(!output_resolves(nodes, k, i, infos));
                },
            }
            assert(inputs.take(inputs.len() as int) =~= inputs);
            lemma_drained_twice(inits, inputs_before(nodes, k), inputs);
        },
        Err(_) => {
            let i = choose|i: int|
                0 <= i < inputs.len() && (#[trigger] input_source(inputs, i, here, infos)) is None;
            assert(!input_resolves(nodes, k, i, inits, infos));
        },
    }
}

/// Walking the nodes from the `k`-th on gives a graph exactly where each of
/// them resolves.
pub proof fn lemma_walk_succeeds(
    g: GraphView,
    nodes: Seq<NodeProto>,
    k: int,
    inits: Map<Seq<char>, TensorView>,
    infos: Map<Seq<char>, TensorView>,
)
    requires
        0 <= k <= nodes.len(),
    ensures
        walk(g, nodes, k, inits_at(nodes, k, inits), infos) is Ok <==> resolvable_from(
            nodes,
            k,
            inits,
            infos,
        ),
    decreases nodes.len() - k,
{
    if k < nodes.len() {
        lemma_op_built(nodes, k, inits, infos);
        match op_built(node_name(k as nat, nodes[k]), nodes[k], inits_at(nodes, k, inits), infos) {
            Ok(op) => {
                lemma_walk_succeeds(g.with_operator(op), nodes, k + 1, inits, infos);
                assert(node_resolves(nodes, k, inits, infos));
                if resolvable_from(nodes, k + 1, inits, infos) {
                    assert forall|j: int| k <= j < nodes.len() implies #[trigger] node_resolves(
                        nodes,
                        j,
                        inits,
                        infos,
                    ) by {
                        if j > k {
                            assert(node_resolves(nodes, j, inits, infos));
                        }
                    }
                }
            },
            Err(_) => {
                assert(!node_resolves(nodes, k, inits, infos));
            },
        }
    }
}

/// What walking the nodes from the `k`-th on adds to a graph: an operator
/// under the name of each of these nodes, and nothing else. Under a name
/// stands the operator of the last node of that name. The graph keeps its
/// name, and stays well named.
pub proof fn lemma_walk_operators(
    g: GraphView,
    nodes: Seq<NodeProto>,
    k: int,
    inits: Map<Seq<char>, TensorView>,
    infos: Map<Seq<char>, TensorView>,
)
    requires
        0 <= k <= nodes.len(),
        walk(g, nodes, k, inits_at(nodes, k, inits), infos) is Ok,
    ensures
        ({
            let r = walk(g, nodes, k, inits_at(nodes, k, inits), infos)->Ok_0;
            &&& r.name == g.name
            &&& g.well_named() ==> r.well_named()
            &&& forall|key: Seq<char>|
                r.operators.contains_key(key) <==> g.operators.contains_key(key) || exists|
                    j: int,
                |
                    k <= j < nodes.len() && #[trigger] operator_names(nodes)[j] == key
            &&& forall|key: Seq<char>|
                g.operators.contains_key(key) && (forall|j: int|
                    k <= j < nodes.len() ==> #[trigger] operator_names(nodes)[j] != key)
                    ==> r.operators[key] == g.operators[key]
            &&& forall|j: int|
                k <= j < nodes.len() && #[trigger] last_of_its_name(nodes, j) ==> Ok::<
                    OperatorView,
                    LoadErrorView,
                >(r.operators[operator_names(nodes)[j]]) == op_built(
                    operator_names(nodes)[j],
                    nodes[j],
                    inits_at(nodes, j, inits),
                    infos,
                )
        }),
    decreases nodes.len() - k,
{
    let r = walk(g, nodes, k, inits_at(nodes, k, inits), infos)->Ok_0;
    if k < nodes.len() {
        let name = operator_names(nodes)[k];
        lemma_op_built(nodes, k, inits, infos);
        let op = op_built(name, nodes[k], inits_at(nodes, k, inits), infos)->Ok_0;
        let next = g.with_operator(op);
        lemma_walk_operators(next, nodes, k + 1, inits, infos);
        assert forall|key: Seq<char>|
            r.operators.contains_key(key) <==> g.operators.contains_key(key) || exists|j: int|
                k <= j < nodes.len() && #[trigger] operator_names(nodes)[j] == key by {
            if r.operators.contains_key(key) {
                if next.operators.contains_key(key) {
                    if !g.operators.contains_key(key) {
                        assert(operator_names(nodes)[k] == key);
                    }
                } else {
                    let j = choose|j: int|
                        k + 1 <= j < nodes.len() && #[trigger] operator_names(nodes)[j] == key;
                    assert(k <= j < nodes.len() && operator_names(nodes)[j] == key);
                }
            }
            if g.operators.contains_key(key) {
                assert(next.operators.contains_key(key));
            }
            if exists|j: int| k <= j < nodes.len() && #[trigger] operator_names(nodes)[j] == key {
                let j = choose|j: int|
                    k <= j < nodes.len() && #[trigger] operator_names(nodes)[j] == key;
                if j == k {
                    assert(next.operators.contains_key(key));
                } else {
                    assert(k + 1 <= j < nodes.len() && operator_names(nodes)[j] == key);
                }
            }
        }
        assert forall|key: Seq<char>|
            g.operators.contains_key(key) && (forall|j: int|
                k <= j < nodes.len() ==> #[trigger] operator_names(nodes)[j] != key)
                implies r.operators[key] == g.operators[key] by {
            assert(operator_names(nodes)[k] != key);
            assert(next.operators.contains_key(key));
            assert forall|j: int| k + 1 <= j < nodes.len() implies #[trigger] operator_names(
                nodes,
            )[j] != key by {}
        }
        assert forall|j: int|
            k <= j < nodes.len() && #[trigger] last_of_its_name(nodes, j) implies Ok::<
                OperatorView,
                LoadErrorView,
            >(r.operators[operator_names(nodes)[j]]) == op_built(
                operator_names(nodes)[j],
                nodes[j],
                inits_at(nodes, j, inits),
                infos,
            ) by {
            if j == k {
                assert(next.operators.contains_key(name));
                assert forall|l: int| k + 1 <= l < nodes.len() implies #[trigger] operator_names(
                    nodes,
                )[l] != name by {}
                assert(r.operators[name] == next.operators[name]);
            }
        }
    }
}

/// The first `n` places written in decimal: the tags of `n` inputs or
/// outputs.
pub open spec fn tags(n: nat) -> Seq<Seq<char>> {
    Seq::new(n, |j: int| decimal(j as nat))
}

/// No two places have the same tag.
pub proof fn lemma_tags_are_distinct(n: nat)
    ensures
        tags(n).no_duplicates(),
        tags(n).to_set().finite(),
        tags(n).to_set().len() == n,
{
    assert forall|i: int, j: int| 0 <= i < n && 0 <= j < n && i != j implies tags(n)[i] != tags(
        n,
    )[j] by {
        if decimal(i as nat) == decimal(j as nat) {
            lemma_decimal_injective(i as nat, j as nat);
        }
    }
    tags(n).unique_seq_to_set();
    vstd::seq_lib::seq_to_set_is_finite(tags(n));
}

/// What placing the inputs from the `i`-th on adds to an operator: under the
/// tag of each of these places the tensor of the input at that place, and
/// nothing else.
pub proof fn lemma_scan_inputs_places(
    op: OperatorView,
    names: Seq<Seq<char>>,
    i: int,
    inits: Map<Seq<char>, TensorView>,
    infos: Map<Seq<char>, TensorView>,
)
    requires
        0 <= i <= names.len(),
        scan_inputs(op, names, i, inits, infos) is Ok,
    ensures
        ({
            let r = scan_inputs(op, names, i, inits, infos)->Ok_0;
            let t = tags(names.len());
            &&& r.kind == op.kind
            &&& r.outputs == op.outputs
            &&& r.attributes == op.attributes
            &&& forall|tag: Seq<char>|
                r.inputs.contains_key(tag) <==> op.inputs.contains_key(tag) || exists|j: int|
                    i <= j < names.len() && #[trigger] t[j] == tag
            &&& forall|tag: Seq<char>|
                op.inputs.contains_key(tag) && (forall|j: int|
                    i <= j < names.len() ==> #[trigger] t[j] != tag) ==> r.inputs[tag]
                    == op.inputs[tag]
            &&& forall|j: int|
                i <= j < names.len() ==> Some(r.inputs[#[trigger] t[j]]) == input_source(
                    names,
                    j,
                    inits,
                    infos,
                )
        }),
    decreases names.len() - i,
{
    let r = scan_inputs(op, names, i, inits, infos)->Ok_0;
    let t = tags(names.len());
    if i < names.len() {
        lemma_tags_are_distinct(names.len());
        let source = input_source(names, i, inits, infos)->Some_0;
        let next = op.with_input(decimal(i as nat), source);
        assert(t[i] == decimal(i as nat));
        lemma_scan_inputs_places(next, names, i + 1, inits, infos);
        assert forall|tag: Seq<char>|
            r.inputs.contains_key(tag) <==> op.inputs.contains_key(tag) || exists|j: int|
                i <= j < names.len() && #[trigger] t[j] == tag by {
            if r.inputs.contains_key(tag) {
                if next.inputs.contains_key(tag) {
                    if !op.inputs.contains_key(tag) {
                        assert(t[i] == tag);
                    }
                } else {
                    let j = choose|j: int| i + 1 <= j < names.len() && #[trigger] t[j] == tag;
                    assert(i <= j < names.len() && t[j] == tag);
                }
            }
            if op.inputs.contains_key(tag) {
                assert(next.inputs.contains_key(tag));
            }
            if exists|j: int| i <= j < names.len() && #[trigger] t[j] == tag {
                let j = choose|j: int| i <= j < names.len() && #[trigger] t[j] == tag;
                if j == i {
                    assert(next.inputs.contains_key(tag));
                } else {
                    assert(i + 1 <= j < names.len() && t[j] == tag);
                }
            }
        }
        assert forall|tag: Seq<char>|
            op.inputs.contains_key(tag) && (forall|j: int|
                i <= j < names.len() ==> #[trigger] t[j] != tag) implies r.inputs[tag]
            == op.inputs[tag] by {
            assert(t[i] != tag);
            assert(next.inputs.contains_key(tag));
            assert forall|j: int| i + 1 <= j < names.len() implies #[trigger] t[j] != tag by {}
        }
        assert forall|j: int| i <= j < names.len() implies Some(r.inputs[#[trigger] t[j]])
            == input_source(names, j, inits, infos) by {
            if j == i {
                assert(next.inputs.contains_key(t[i]));
                assert forall|l: int| i + 1 <= l < names.len() implies #[trigger] t[l] != t[i] by {}
                assert(r.inputs[t[i]] == next.inputs[t[i]]);
            }
        }
    }
}

/// What placing the outputs from the `i`-th on adds to an operator: under the
/// tag of each of these places the declared value that the output names, and
/// nothing else.
pub proof fn lemma_scan_outputs_places(
    op: OperatorView,
    names: Seq<Seq<char>>,
    i: int,
    infos: Map<Seq<char>, TensorView>,
)
    requires
        0 <= i <= names.len(),
        scan_outputs(op, names, i, infos) is Ok,
    ensures
        ({
            let r = scan_outputs(op, names, i, infos)->Ok_0;
            let t = tags(names.len());
            &&& r.kind == op.kind
            &&& r.inputs == op.inputs
            &&& r.attributes == op.attributes
            &&& forall|tag: Seq<char>|
                r.outputs.contains_key(tag) <==> op.outputs.contains_key(tag) || exists|j: int|
                    i <= j < names.len() && #[trigger] t[j] == tag
            &&& forall|tag: Seq<char>|
                op.outputs.contains_key(tag) && (forall|j: int|
                    i <= j < names.len() ==> #[trigger] t[j] != tag) ==> r.outputs[tag]
                    == op.outputs[tag]
            &&& forall|j: int| i <= j < names.len() ==> infos.contains_key(#[trigger] names[j])
            &&& forall|j: int|
                i <= j < names.len() ==> r.outputs[#[trigger] t[j]] == infos[names[j]]
        }),
    decreases names.len() - i,
{
    let r = scan_outputs(op, names, i, infos)->Ok_0;
    let t = tags(names.len());
    if i < names.len() {
        lemma_tags_are_distinct(names.len());
        let next = op.with_output(decimal(i as nat), infos[names[i]]);
        assert(t[i] == decimal(i as nat));
        lemma_scan_outputs_places(next, names, i + 1, infos);
        assert forall|tag: Seq<char>|
            r.outputs.contains_key(tag) <==> op.outputs.contains_key(tag) || exists|j: int|
                i <= j < names.len() && #[trigger] t[j] == tag by {
            if r.outputs.contains_key(tag) {
                if next.outputs.contains_key(tag) {
                    if !op.outputs.contains_key(tag) {
                        assert(t[i] == tag);
                    }
                } else {
                    let j = choose|j: int| i + 1 <= j < names.len() && #[trigger] t[j] == tag;
                    assert(i <= j < names.len() && t[j] == tag);
                }
            }
            if op.outputs.contains_key(tag) {
                assert(next.outputs.contains_key(tag));
            }
            if exists|j: int| i <= j < names.len() && #[trigger] t[j] == tag {
                let j = choose|j: int| i <= j < names.len() && #[trigger] t[j] == tag;
                if j == i {
                    assert(next.outputs.contains_key(tag));
                } else {
                    assert(i + 1 <= j < names.len() && t[j] == tag);
                }
            }
        }
        assert forall|tag: Seq<char>|
            op.outputs.contains_key(tag) && (forall|j: int|
                i <= j < names.len() ==> #[trigger] t[j] != tag) implies r.outputs[tag]
            == op.outputs[tag] by {
            assert(t[i] != tag);
            assert(next.outputs.contains_key(tag));
            assert forall|j: int| i + 1 <= j < names.len() implies #[trigger] t[j] != tag by {}
        }
        assert(infos.contains_key(names[i]));
        assert(scan_outputs(op, names, i, infos) == scan_outputs(next, names, i + 1, infos));
        assert forall|j: int| i <= j < names.len() implies r.outputs[#[trigger] t[j]]
            == infos[names[j]] by {
            if j == i {
                assert(next.outputs.contains_key(t[i]));
                assert forall|l: int| i + 1 <= l < names.len() implies #[trigger] t[l] != t[i] by {}
                assert(r.outputs[t[i]] == next.outputs[t[i]]);
            }
        }
    }
}

/// Reading the attributes from the `i`-th on leaves the tensors of an
/// operator as they are, and adds an attribute under the name of each.
pub proof fn lemma_scan_attributes_places(op: OperatorView, attrs: Seq<AttributeProto>, i: int)
    requires
        0 <= i <= attrs.len(),
        scan_attributes(op, attrs, i) is Ok,
    ensures
        ({
            let r = scan_attributes(op, attrs, i)->Ok_0;
            &&& r.kind == op.kind
            &&& r.inputs == op.inputs
            &&& r.outputs == op.outputs
            &&& forall|key: Seq<char>|
                r.attributes.contains_key(key) <==> op.attributes.contains_key(key) || exists|
                    j: int,
                |
                    i <= j < attrs.len() && (#[trigger] attrs[j]).name@ == key
        }),
    decreases attrs.len() - i,
{
    let r = scan_attributes(op, attrs, i)->Ok_0;
    if i < attrs.len() {
        let value = attr_value(attrs[i])->Some_0;
        let next = op.with_attribute(attrs[i].name@, value);
        lemma_scan_attributes_places(next, attrs, i + 1);
        assert forall|key: Seq<char>|
            r.attributes.contains_key(key) <==> op.attributes.contains_key(key) || exists|j: int|
                i <= j < attrs.len() && (#[trigger] attrs[j]).name@ == key by {
            if r.attributes.contains_key(key) {
                if next.attributes.contains_key(key) {
                    if !op.attributes.contains_key(key) {
                        assert(attrs[i].name@ == key);
                    }
                } else {
                    let j = choose|j: int|
                        i + 1 <= j < attrs.len() && (#[trigger] attrs[j]).name@ == key;
                    assert(i <= j < attrs.len() && attrs[j].name@ == key);
                }
            }
            if op.attributes.contains_key(key) {
                assert(next.attributes.contains_key(key));
            }
            if exists|j: int| i <= j < attrs.len() && (#[trigger] attrs[j]).name@ == key {
                let j = choose|j: int| i <= j < attrs.len() && (#[trigger] attrs[j]).name@ == key;
                if j == i {
                    assert(next.attributes.contains_key(key));
                } else {
                    assert(i + 1 <= j < attrs.len() && attrs[j].name@ == key);
                }
            }
        }
    }
}

/// An operator that is built has the name asked for and computes what its
/// node says. It has one input for each input of the node and one output for
/// each output of the node, under their places written in decimal, and an
/// attribute under the name of each attribute of the node. An input is the
/// initializer of its name, unless an input before it had that one, and else
/// the declared value of its name; an output is the declared value of its
/// name.
pub proof fn lemma_built_operator(
    name: Seq<char>,
    node: NodeProto,
    inits: Map<Seq<char>, TensorView>,
    infos: Map<Seq<char>, TensorView>,
)
    requires
        op_built(name, node, inits, infos) is Ok,
    ensures
        ({
            let op = op_built(name, node, inits, infos)->Ok_0;
            let inputs = names_of(node.input@);
            let outputs = names_of(node.output@);
            &&& op.name == name
            &&& op.kind == node.op_type@
            &&& op.inputs.dom() == tags(inputs.len()).to_set()
            &&& op.inputs.len() == node.input@.len()
            &&& forall|j: int|
                0 <= j < inputs.len() ==> Some(op.inputs[#[trigger] tags(inputs.len())[j]])
                    == input_source(inputs, j, inits, infos)
            &&& op.outputs.dom() == tags(outputs.len()).to_set()
            &&& op.outputs.len() == node.output@.len()
            &&& forall|j: int| 0 <= j < outputs.len() ==> infos.contains_key(#[trigger] outputs[j])
            &&& forall|j: int|
                0 <= j < outputs.len() ==> op.outputs[#[trigger] tags(outputs.len())[j]]
                    == infos[outputs[j]]
            &&& forall|key: Seq<char>|
                op.attributes.contains_key(key) <==> exists|j: int|
                    0 <= j < node.attribute@.len() && (#[trigger] node.attribute@[j]).name@ == key
        }),
{
    let inputs = names_of(node.input@);
    let outputs = names_of(node.output@);
    let start = OperatorView::bare(name, node.op_type@);
    let with_inputs = scan_inputs(start, inputs, 0, inits, infos)->Ok_0;
    let with_outputs = scan_outputs(with_inputs, outputs, 0, infos)->Ok_0;
    let op = op_built(name, node, inits, infos)->Ok_0;
    lemma_scan_inputs(start, inputs, 0, inits, infos);
    lemma_scan_inputs_places(start, inputs, 0, inits, infos);
    lemma_scan_outputs(with_inputs, outputs, 0, infos);
    lemma_scan_outputs_places(with_inputs, outputs, 0, infos);
    lemma_scan_attributes(with_outputs, node.attribute@, 0);
    lemma_scan_attributes_places(with_outputs, node.attribute@, 0);
    lemma_tags_are_distinct(inputs.len());
    lemma_tags_are_distinct(outputs.len());
    let ti = tags(inputs.len());
    let to = tags(outputs.len());
    assert forall|tag: Seq<char>| op.inputs.dom().contains(tag) <==> ti.to_set().contains(
        tag,
    ) by {
        if op.inputs.contains_key(tag) {
            let j = choose|j: int| 0 <= j < inputs.len() && #[trigger] ti[j] == tag;
            assert(ti.contains(tag));
        }
        if ti.contains(tag) {
            let j = ti.index_of(tag);
            assert(0 <= j < inputs.len() && ti[j] == tag);
        }
    }
    assert(op.inputs.dom() =~= ti.to_set());
    assert forall|tag: Seq<char>| op.outputs.dom().contains(tag) <==> to.to_set().contains(
        tag,
    ) by {
        if op.outputs.contains_key(tag) {
            let j = choose|j: int| 0 <= j < outputs.len() && #[trigger] to[j] == tag;
            assert(to.contains(tag));
        }
        if to.contains(tag) {
            let j = to.index_of(tag);
            assert(0 <= j < outputs.len() && to[j] == tag);
        }
    }
    assert(op.outputs.dom() =~= to.to_set());
}

/// An input whose name is neither an initializer nor a declared value keeps
/// the operator from being built: what comes back is an error that names the
/// operator and a tensor that an input of the node asks for in vain, this
/// input or one before it.
pub proof fn lemma_unresolved_input_is_reported(
    name: Seq<char>,
    node: NodeProto,
    i: int,
    inits: Map<Seq<char>, TensorView>,
    infos: Map<Seq<char>, TensorView>,
)
    requires
        0 <= i < node.input@.len(),
        !inits.contains_key(node.input@[i]@),
        !infos.contains_key(node.input@[i]@),
    ensures
        op_built(name, node, inits, infos) matches Err(
            LoadErrorView::UnresolvedInput { operator, tensor },
        ) && operator == name && exists|j: int|
            0 <= j <= i && tensor == #[trigger] node.input@[j]@ && input_source(
                names_of(node.input@),
                j,
                inits,
                infos,
            ) is None,
{
    let names = names_of(node.input@);
    lemma_drained_contains(inits, names.take(i), names[i]);
    assert(input_source(names, i, inits, infos) is None);
    lemma_first_unresolved_input(OperatorView::bare(name, node.op_type@), names, 0, i, inits, infos);
    let j = choose|j: int|
        0 <= j <= i && input_source(names, j, inits, infos) is None && scan_inputs(
            OperatorView::bare(name, node.op_type@),
            names,
            0,
            inits,
            infos,
        ) == Err::<OperatorView, LoadErrorView>(
            LoadErrorView::UnresolvedInput { operator: name, tensor: names[j] },
        );
    assert(names[j] == node.input@[j]@);
}

/// Where an input from the `from`-th on has no tensor, the inputs are not
/// all placed, and the error names the operator and the first such input.
pub proof fn lemma_first_unresolved_input(
    op: OperatorView,
    names: Seq<Seq<char>>,
    from: int,
    i: int,
    inits: Map<Seq<char>, TensorView>,
    infos: Map<Seq<char>, TensorView>,
)
    requires
        0 <= from <= i < names.len(),
        input_source(names, i, inits, infos) is None,
    ensures
        exists|j: int|
            from <= j <= i && (#[trigger] input_source(names, j, inits, infos)) is None
                && scan_inputs(op, names, from, inits, infos) == Err::<
                OperatorView,
                LoadErrorView,
            >(LoadErrorView::UnresolvedInput { operator: op.name, tensor: names[j] }),
    decreases i - from,
{
    match input_source(names, from, inits, infos) {
        None => {
            assert(from <= from <= i && input_source(names, from, inits, infos) is None);
        },
        Some(t) => {
            let next = op.with_input(decimal(from as nat), t);
            lemma_first_unresolved_input(next, names, from + 1, i, inits, infos);
            let j = choose|j: int|
                from + 1 <= j <= i && (#[trigger] input_source(names, j, inits, infos)) is None
                    && scan_inputs(next, names, from + 1, inits, infos) == Err::<
                    OperatorView,
                    LoadErrorView,
                >(LoadErrorView::UnresolvedInput { operator: next.name, tensor: names[j] });
            assert(from <= j <= i && input_source(names, j, inits, infos) is None);
        },
    }
}

/// An initializer without sizes becomes a tensor of one dimension of size 1.
pub proof fn lemma_scalar_initializer_has_shape_one(
    t: TensorProto,
    dir: Option<Seq<char>>,
    files: Map<Seq<char>, Vec<u8>>,
)
    requires
        t.dims@.len() == 0,
    ensures
        initializer_tensor(t, dir, files) matches Ok(tensor) ==> tensor.shape == seq![1u32],
{
}

/// An initializer whose data lies in two files gets the bytes of the first
/// file and then those of the second: as many bytes as both files hold
/// together.
pub proof fn lemma_external_data_in_two_files(
    t: TensorProto,
    dir: Seq<char>,
    files: Map<Seq<char>, Vec<u8>>,
)
    requires
        t.raw_data@.len() == 0,
        is_external(t),
        t.external_data@.len() == 2,
        files.contains_key(external_path(dir, t.external_data@[0])),
        files.contains_key(external_path(dir, t.external_data@[1])),
        initializer_tensor(t, Some(dir), files) is Ok,
    ensures
        ({
            let tensor = initializer_tensor(t, Some(dir), files)->Ok_0;
            let first = files[external_path(dir, t.external_data@[0])]@;
            let second = files[external_path(dir, t.external_data@[1])]@;
            &&& tensor.data == DataView::owned(first + second)
            &&& tensor.data.len() == first.len() + second.len()
        }),
{
    let entries = t.external_data@;
    let one = entries.drop_last();
    assert(one.drop_last() =~= Seq::<StringStringEntryProto>::empty());
    assert(one.last() == entries[0]);
    assert(entries.last() == entries[1]);
    let first = files[external_path(dir, entries[0])]@;
    let second = files[external_path(dir, entries[1])]@;
    assert(external_bytes(dir, one.drop_last(), files) == Ok::<Seq<u8>, LoadErrorView>(
        Seq::empty(),
    ));
    assert(Seq::<u8>::empty() + first =~= first);
    assert(external_bytes(dir, one, files) == Ok::<Seq<u8>, LoadErrorView>(first));
    assert(external_bytes(dir, entries, files) == Ok::<Seq<u8>, LoadErrorView>(first + second));
}

/// Loading builds a graph exactly where each node resolves, once the tables
/// of the initializers and of the declared values are there: each input is a
/// declared value or an initializer that no input before it has taken, each
/// output is a declared value, and each attribute is of a kind that can be
/// read.
pub proof fn lemma_resolvable_graph_is_built(
    g: GraphProto,
    dir: Option<Seq<char>>,
    files: Map<Seq<char>, Vec<u8>>,
)
    requires
        initializer_table(g.initializer@, dir, files) is Ok,
        value_infos_of(g) is Ok,
    ensures
        graph_built(g, dir, files) is Ok <==> resolvable_from(
            g.node@,
            0,
            initializer_table(g.initializer@, dir, files)->Ok_0,
            value_infos_of(g)->Ok_0,
        ),
{
    let inits = initializer_table(g.initializer@, dir, files)->Ok_0;
    let infos = value_infos_of(g)->Ok_0;
    assert(inits_at(g.node@, 0, inits) =~= inits);
    lemma_walk_succeeds(GraphView::bare(g.name@), g.node@, 0, inits, infos);
}

/// A model with a node that asks for an input that is neither an initializer
/// nor a declared value is not loaded: loading ends with an error, and never
/// with a graph that lacks the tensor.
pub proof fn lemma_graph_with_unresolved_input_is_not_built(
    g: GraphProto,
    dir: Option<Seq<char>>,
    files: Map<Seq<char>, Vec<u8>>,
    k: int,
    i: int,
)
    requires
        0 <= k < g.node@.len(),
        0 <= i < g.node@[k].input@.len(),
        initializer_table(g.initializer@, dir, files) matches Ok(inits) ==> !inits.contains_key(
            g.node@[k].input@[i]@,
        ),
        value_infos_of(g) matches Ok(infos) ==> !infos.contains_key(g.node@[k].input@[i]@),
    ensures
        graph_built(g, dir, files) is Err,
{
    if initializer_table(g.initializer@, dir, files) is Ok && value_infos_of(g) is Ok {
        let inits = initializer_table(g.initializer@, dir, files)->Ok_0;
        let infos = value_infos_of(g)->Ok_0;
        lemma_resolvable_graph_is_built(g, dir, files);
        assert(!input_resolves(g.node@, k, i, inits, infos));
        assert(!node_resolves(g.node@, k, inits, infos));
    }
}

/// A graph that loading builds has the name that the model gives it, and an
/// operator under the name of each node and under no other name: no two of
/// its operators have the same name. Where several nodes have the same name,
/// the operator of the last of them stands under it. Where no two nodes have
/// the same name, the graph has as many operators as the model has nodes.
pub proof fn lemma_built_graph_has_an_operator_for_each_node(
    g: GraphProto,
    dir: Option<Seq<char>>,
    files: Map<Seq<char>, Vec<u8>>,
)
    requires
        graph_built(g, dir, files) is Ok,
    ensures
        ({
            let r = graph_built(g, dir, files)->Ok_0;
            let inits = initializer_table(g.initializer@, dir, files)->Ok_0;
            let infos = value_infos_of(g)->Ok_0;
            &&& r.name == g.name@
            &&& r.well_named()
            &&& r.operators.dom() == operator_names(g.node@).to_set()
            &&& r.operators.len() <= g.node@.len()
            &&& operator_names(g.node@).no_duplicates() ==> r.operators.len() == g.node@.len()
            &&& forall|j: int|
                0 <= j < g.node@.len() && #[trigger] last_of_its_name(g.node@, j) ==> Ok::<
                    OperatorView,
                    LoadErrorView,
                >(r.operators[operator_names(g.node@)[j]]) == op_built(
                    operator_names(g.node@)[j],
                    g.node@[j],
                    inits_at(g.node@, j, inits),
                    infos,
                )
        }),
{
    let r = graph_built(g, dir, files)->Ok_0;
    let inits = initializer_table(g.initializer@, dir, files)->Ok_0;
    let infos = value_infos_of(g)->Ok_0;
    let names = operator_names(g.node@);
    let start = GraphView::bare(g.name@);
    assert(inits_at(g.node@, 0, inits) =~= inits);
    lemma_walk_operators(start, g.node@, 0, inits, infos);
    assert forall|key: Seq<char>| r.operators.dom().contains(key) <==> names.to_set().contains(
        key,
    ) by {
        if r.operators.contains_key(key) {
            let j = choose|j: int| 0 <= j < g.node@.len() && #[trigger] names[j] == key;
            assert(names.contains(key));
        }
        if names.contains(key) {
            let j = names.index_of(key);
            assert(0 <= j < g.node@.len() && names[j] == key);
        }
    }
    assert(r.operators.dom() =~= names.to_set());
    names.lemma_cardinality_of_set();
    if names.no_duplicates() {
        names.unique_seq_to_set();
    }
}

/// Where the files of all entries are there, their bytes are had.
pub proof fn lemma_external_bytes_are_had(
    dir: Seq<char>,
    entries: Seq<StringStringEntryProto>,
    files: Map<Seq<char>, Vec<u8>>,
)
    requires
        forall|i: int|
            0 <= i < entries.len() ==> files.contains_key(
                external_path(dir, #[trigger] entries[i]),
            ),
    ensures
        external_bytes(dir, entries, files) is Ok,
    decreases entries.len(),
{
    if entries.len() > 0 {
        let head = entries.drop_last();
        assert forall|i: int| 0 <= i < head.len() implies files.contains_key(
            external_path(dir, #[trigger] head[i]),
        ) by {
            assert(head[i] == entries[i]);
        }
        lemma_external_bytes_are_had(dir, head, files);
        assert(entries.last() == entries[entries.len() - 1]);
    }
}

/// The files that `external_paths` names are all that the initializers ask
/// for: where the table of files holds each of them, no initializer is
/// reported as lacking a file.
pub proof fn lemma_external_paths_suffice(
    dir: Seq<char>,
    ts: Seq<TensorProto>,
    files: Map<Seq<char>, Vec<u8>>,
)
    requires
        forall|i: int|
            0 <= i < external_paths_of(dir, ts).len() ==> files.contains_key(
                #[trigger] external_paths_of(dir, ts)[i],
            ),
    ensures
        !(initializer_table(ts, Some(dir), files) matches Err(
            LoadErrorView::FileNotFound { .. },
        )),
    decreases ts.len(),
{
    if ts.len() > 0 {
        let head = external_paths_of(dir, ts.drop_last());
        let all = external_paths_of(dir, ts);
        let t = ts.last();
        assert forall|i: int| 0 <= i < head.len() implies files.contains_key(
            #[trigger] head[i],
        ) by {
            assert(all[i] == head[i]);
        }
        lemma_external_paths_suffice(dir, ts.drop_last(), files);
        if reads_files(t) {
            let paths = entry_paths(dir, t.external_data@);
            assert forall|i: int| 0 <= i < t.external_data@.len() implies files.contains_key(
                external_path(dir, #[trigger] t.external_data@[i]),
            ) by {
                assert(all[head.len() + i] == paths[i]);
            }
            lemma_external_bytes_are_had(dir, t.external_data@, files);
        }
    }
}

/// Whether each tensor of a table stands under its own name.
pub open spec fn self_named(table: Map<Seq<char>, TensorView>) -> bool {
    forall|k: Seq<char>| #[trigger] table.contains_key(k) ==> table[k].name == k
}

/// Each initializer stands in its table under its own name.
pub proof fn lemma_initializer_table_is_self_named(
    ts: Seq<TensorProto>,
    dir: Option<Seq<char>>,
    files: Map<Seq<char>, Vec<u8>>,
)
    ensures
        initializer_table(ts, dir, files) matches Ok(table) ==> self_named(table),
    decreases ts.len(),
{
    if ts.len() > 0 {
        lemma_initializer_table_is_self_named(ts.drop_last(), dir, files);
    }
}

/// Each declared value stands in its table under its own name.
pub proof fn lemma_value_table_is_self_named(
    table: Map<Seq<char>, TensorView>,
    vs: Seq<ValueInfoProto>,
)
    requires
        self_named(table),
    ensures
        value_table(table, vs) matches Ok(t) ==> self_named(t),
    decreases vs.len(),
{
    if vs.len() > 0 {
        lemma_value_table_is_self_named(table, vs.drop_last());
    }
}

/// The tensors of an operator have the names that its node gives: the
/// tensor at a place of the inputs or of the outputs is called what the node
/// calls the input or output at that place. So two operators that name the
/// same value hold tensors of the same name, which is what links them.
pub proof fn lemma_tensors_have_the_names_of_the_node(
    name: Seq<char>,
    node: NodeProto,
    inits: Map<Seq<char>, TensorView>,
    infos: Map<Seq<char>, TensorView>,
)
    requires
        op_built(name, node, inits, infos) is Ok,
        self_named(inits),
        self_named(infos),
    ensures
        ({
            let op = op_built(name, node, inits, infos)->Ok_0;
            let inputs = names_of(node.input@);
            let outputs = names_of(node.output@);
            &&& forall|j: int|
                0 <= j < inputs.len() ==> op.inputs[#[trigger] tags(inputs.len())[j]].name
                    == inputs[j]
            &&& forall|j: int|
                0 <= j < outputs.len() ==> op.outputs[#[trigger] tags(outputs.len())[j]].name
                    == outputs[j]
        }),
{
    let op = op_built(name, node, inits, infos)->Ok_0;
    let inputs = names_of(node.input@);
    let outputs = names_of(node.output@);
    lemma_built_operator(name, node, inits, infos);
    assert forall|j: int| 0 <= j < inputs.len() implies op.inputs[#[trigger] tags(
        inputs.len(),
    )[j]].name == inputs[j] by {
        lemma_drained_contains(inits, inputs.take(j), inputs[j]);
        assert(Some(op.inputs[tags(inputs.len())[j]]) == input_source(inputs, j, inits, infos));
    }
    assert forall|j: int| 0 <= j < outputs.len() implies op.outputs[#[trigger] tags(
        outputs.len(),
    )[j]].name == outputs[j] by {
        assert(infos.contains_key(outputs[j]));
    }
}

/// The place of the last node whose operator is called `key`, among the
/// first `n` nodes; -1 where there is none.
pub open spec fn last_place(nodes: Seq<NodeProto>, key: Seq<char>, n: int) -> int
    decreases n,
{
    if n <= 0 {
        -1
    } else if operator_names(nodes)[n - 1] == key {
        n - 1
    } else {
        last_place(nodes, key, n - 1)
    }
}

/// Where a node among the first `n` has an operator called `key`, the last
/// such node is found, and no node after it is called so.
pub proof fn lemma_last_place(nodes: Seq<NodeProto>, key: Seq<char>, n: int, j: int)
    requires
        0 <= j < n <= nodes.len(),
        operator_names(nodes)[j] == key,
    ensures
        j <= last_place(nodes, key, n) < n,
        operator_names(nodes)[last_place(nodes, key, n)] == key,
        forall|l: int|
            last_place(nodes, key, n) < l < n ==> #[trigger] operator_names(nodes)[l] != key,
    decreases n,
{
    if operator_names(nodes)[n - 1] != key {
        lemma_last_place(nodes, key, n - 1, j);
    }
}

/// Every operator of a graph that loading builds is the operator of a node:
/// of the last node of its name, built from the initializers that the nodes
/// before it have left and from the declared values. Its tensors have the
/// names that this node gives them, so that every input which is no
/// initializer is a declared value of that name.
pub proof fn lemma_every_operator_comes_from_a_node(
    g: GraphProto,
    dir: Option<Seq<char>>,
    files: Map<Seq<char>, Vec<u8>>,
    key: Seq<char>,
)
    requires
        graph_built(g, dir, files) is Ok,
        graph_built(g, dir, files)->Ok_0.operators.contains_key(key),
    ensures
        ({
            let r = graph_built(g, dir, files)->Ok_0;
            let inits = initializer_table(g.initializer@, dir, files)->Ok_0;
            let infos = value_infos_of(g)->Ok_0;
            let j = last_place(g.node@, key, g.node@.len() as int);
            let node = g.node@[j];
            let inputs = names_of(node.input@);
            let outputs = names_of(node.output@);
            &&& 0 <= j < g.node@.len()
            &&& operator_names(g.node@)[j] == key
            &&& Ok::<OperatorView, LoadErrorView>(r.operators[key]) == op_built(
                key,
                node,
                inits_at(g.node@, j, inits),
                infos,
            )
            &&& forall|i: int|
                0 <= i < inputs.len() ==> r.operators[key].inputs[#[trigger] tags(
                    inputs.len(),
                )[i]].name == inputs[i]
            &&& forall|i: int|
                0 <= i < outputs.len() ==> r.operators[key].outputs[#[trigger] tags(
                    outputs.len(),
                )[i]].name == outputs[i]
        }),
{
    let r = graph_built(g, dir, files)->Ok_0;
    let inits = initializer_table(g.initializer@, dir, files)->Ok_0;
    let infos = value_infos_of(g)->Ok_0;
    let nodes = g.node@;
    let names = operator_names(nodes);
    lemma_built_graph_has_an_operator_for_each_node(g, dir, files);
    assert(names.to_set().contains(key));
    let some = names.index_of(key);
    lemma_last_place(nodes, key, nodes.len() as int, some);
    let j = last_place(nodes, key, nodes.len() as int);
    assert(last_of_its_name(nodes, j));
    lemma_initializer_table_is_self_named(g.initializer@, dir, files);
    assert(self_named(Map::<Seq<char>, TensorView>::empty()));
    lemma_value_table_is_self_named(Map::empty(), g.value_info@);
    let first = value_table(Map::empty(), g.value_info@)->Ok_0;
    lemma_value_table_is_self_named(first, g.input@);
    let second = value_table(first, g.input@)->Ok_0;
    lemma_value_table_is_self_named(second, g.output@);
    assert forall|k: Seq<char>| #[trigger]
        inits_at(nodes, j, inits).contains_key(k) implies inits_at(nodes, j, inits)[k].name
        == k by {
        lemma_drained_contains(inits, inputs_before(nodes, j), k);
    }
    lemma_tensors_have_the_names_of_the_node(key, nodes[j], inits_at(nodes, j, inits), infos);
}

} // verus!

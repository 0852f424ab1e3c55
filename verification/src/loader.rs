//! Builds a graph from the messages of a model file.
//!
//! Reading files is not done here. Whoever calls hands in what the model file
//! holds, the directory it lies in, and what the files beside it hold;
//! `external_paths` says which of those files a model asks for.

pub mod laws;
pub mod transform;

use vstd::prelude::*;
use crate::error::{LoadError, LoadErrorView};
use crate::loader::transform::{
    build_op, dir_view, external_path, initializer_tensor, inits_left, is_external, names_of,
    op_built, trans_tensor, trans_valueinfo, value_info_tensor,
};
use crate::model::graph::{Graph, GraphView};
use crate::model::operator::tensor_views;
use crate::model::table::Table;
use crate::model::tensor::{Tensor, TensorView};
use crate::pb::{
    DataLocation, GraphProto, ModelProto, NodeProto, OperatorSetIdProto, StringStringEntryProto,
    TensorProto, ValueInfoProto,
};
use crate::text::{decimal, decimal_text, same};

verus! {

/// Whether `domain` is the domain of the standard operators: the empty
/// domain, or `ai.onnx`.
pub open spec fn is_default_domain(domain: Seq<char>) -> bool {
    domain.len() == 0 || domain == "ai.onnx"@
}

/// The version of the standard operators that the imports declare: that of
/// the first import of the default domain, and 0 where there is none.
pub open spec fn opset_version_of(imports: Seq<OperatorSetIdProto>) -> i64
    decreases imports.len(),
{
    if imports.len() == 0 {
        0
    } else if is_default_domain(imports[0].domain@) {
        imports[0].version
    } else {
        opset_version_of(imports.drop_first())
    }
}

/// The name of the operator for the `i`-th node: the name of the node; else
/// the name of its first output; else its place and what it computes, as in
/// `3-Add`.
pub open spec fn node_name(i: nat, node: NodeProto) -> Seq<char> {
    if node.name@.len() > 0 {
        node.name@
    } else if node.output@.len() > 0 && node.output@[0]@.len() > 0 {
        node.output@[0]@
    } else {
        decimal(i) + "-"@ + node.op_type@
    }
}

/// The table of the initializers `ts`, by name. A later one takes the place
/// of an earlier one of the same name. Fails at the first that gives no
/// tensor.
pub open spec fn initializer_table(
    ts: Seq<TensorProto>,
    dir: Option<Seq<char>>,
    files: Map<Seq<char>, Vec<u8>>,
) -> Result<Map<Seq<char>, TensorView>, LoadErrorView>
    decreases ts.len(),
{
    if ts.len() == 0 {
        Ok(Map::empty())
    } else {
        match initializer_table(ts.drop_last(), dir, files) {
            Err(e) => Err(e),
            Ok(table) => match initializer_tensor(ts.last(), dir, files) {
                Err(e) => Err(e),
                Ok(t) => Ok(table.insert(ts.last().name@, t)),
            },
        }
    }
}

/// `table` with the declared values `vs`, by name. A later one takes the
/// place of an earlier one of the same name. Fails at the first that gives no
/// tensor.
pub open spec fn value_table(
    table: Map<Seq<char>, TensorView>,
    vs: Seq<ValueInfoProto>,
) -> Result<Map<Seq<char>, TensorView>, LoadErrorView>
    decreases vs.len(),
{
    if vs.len() == 0 {
        Ok(table)
    } else {
        match value_table(table, vs.drop_last()) {
            Err(e) => Err(e),
            Ok(table) => match value_info_tensor(vs.last()) {
                Err(e) => Err(e),
                Ok(t) => Ok(table.insert(vs.last().name@, t)),
            },
        }
    }
}

/// The table of the declared values of a graph: the values within the graph,
/// then its inputs, then its outputs.
pub open spec fn value_infos_of(g: GraphProto) -> Result<Map<Seq<char>, TensorView>, LoadErrorView> {
    match value_table(Map::empty(), g.value_info@) {
        Err(e) => Err(e),
        Ok(table) => match value_table(table, g.input@) {
            Err(e) => Err(e),
            Ok(table) => value_table(table, g.output@),
        },
    }
}

/// `g` with the operators of the nodes from the `k`-th on, in their order.
/// Each node takes its initializers from those that the nodes before it have
/// left. Fails at the first node that gives no operator.
pub open spec fn walk(
    g: GraphView,
    nodes: Seq<NodeProto>,
    k: int,
    inits: Map<Seq<char>, TensorView>,
    infos: Map<Seq<char>, TensorView>,
) -> Result<GraphView, LoadErrorView>
    decreases nodes.len() - k,
{
    if k < 0 || k >= nodes.len() {
        Ok(g)
    } else {
        match op_built(node_name(k as nat, nodes[k]), nodes[k], inits, infos) {
            Err(e) => Err(e),
            Ok(op) => walk(
                g.with_operator(op),
                nodes,
                k + 1,
                inits_left(nodes[k], inits, infos),
                infos,
            ),
        }
    }
}

/// The graph that the message stands for: the tables of its initializers and
/// of its declared values, then its nodes in their order.
pub open spec fn graph_built(
    g: GraphProto,
    dir: Option<Seq<char>>,
    files: Map<Seq<char>, Vec<u8>>,
) -> Result<GraphView, LoadErrorView> {
    match initializer_table(g.initializer@, dir, files) {
        Err(e) => Err(e),
        Ok(inits) => match value_infos_of(g) {
            Err(e) => Err(e),
            Ok(infos) => walk(GraphView::bare(g.name@), g.node@, 0, inits, infos),
        },
    }
}

/// The graph of a model; `MissingGraph` where the model holds none.
pub open spec fn model_built(
    proto: ModelProto,
    dir: Option<Seq<char>>,
    files: Map<Seq<char>, Vec<u8>>,
) -> Result<GraphView, LoadErrorView> {
    match proto.graph {
        None => Err(LoadErrorView::MissingGraph),
        Some(g) => graph_built(g, dir, files),
    }
}

/// Whether the data of the initializer is looked for in files.
pub open spec fn reads_files(t: TensorProto) -> bool {
    t.raw_data@.len() == 0 && is_external(t)
}

/// The paths of the files that `entries` name.
pub open spec fn entry_paths(dir: Seq<char>, entries: Seq<StringStringEntryProto>) -> Seq<
    Seq<char>,
> {
    Seq::new(entries.len(), |i: int| external_path(dir, entries[i]))
}

/// The paths of the files that the initializers `ts` ask for, in the order
/// in which they are read.
pub open spec fn external_paths_of(dir: Seq<char>, ts: Seq<TensorProto>) -> Seq<Seq<char>>
    decreases ts.len(),
{
    if ts.len() == 0 {
        Seq::empty()
    } else {
        let head = external_paths_of(dir, ts.drop_last());
        if reads_files(ts.last()) {
            head + entry_paths(dir, ts.last().external_data@)
        } else {
            head
        }
    }
}

/// What reading the model file gave.
#[derive(Debug)]
pub enum ModelFile {
    /// There is no such file.
    Missing,
    /// The bytes of the file are not a well-formed message, for this reason.
    Malformed(String),
    /// The message that the file holds.
    Decoded(ModelProto),
}

/// What loading gives for each outcome of reading the model file at `path`.
pub open spec fn loaded(
    path: Seq<char>,
    read: ModelFile,
    dir: Option<Seq<char>>,
    files: Map<Seq<char>, Vec<u8>>,
) -> Result<GraphView, LoadErrorView> {
    match read {
        ModelFile::Missing => Err(LoadErrorView::FileNotFound { path }),
        ModelFile::Malformed(reason) => Err(LoadErrorView::DecodeError { reason: reason@ }),
        ModelFile::Decoded(proto) => model_built(proto, dir, files),
    }
}

/// The version of the standard operators that the model was written for; 0
/// where it does not say.
#[verifier::loop_isolation(false)]
pub fn opset_version(proto: &ModelProto) -> (r: i64)
    ensures
        r == opset_version_of(proto.opset_import@),
{
    let imports = &proto.opset_import;
    let n = imports.len();
    let mut i: usize = 0;
    assert(imports@.skip(0) =~= imports@);
    while i < n
        invariant
            i <= n,
            opset_version_of(imports@) == opset_version_of(imports@.skip(i as int)),
        decreases n - i,
    {
        let import = &imports[i];
        proof {
            assert(imports@.skip(i as int)[0] == imports@[i as int]);
            assert(imports@.skip(i as int).drop_first() =~= imports@.skip(i + 1));
        }
        if import.domain.as_str().is_empty() || same(import.domain.as_str(), "ai.onnx") {
            return import.version;
        }
        i = i + 1;
    }
    0
}

/// The name of the operator for the `i`-th node.
pub fn operator_name(i: usize, node: &NodeProto) -> (r: String)
    ensures
        r@ == node_name(i as nat, *node),
{
    if !node.name.as_str().is_empty() {
        node.name.clone()
    } else if node.output.len() > 0 && !node.output[0].as_str().is_empty() {
        node.output[0].clone()
    } else {
        decimal_text(i as u64).concat("-").concat(node.op_type.as_str())
    }
}

/// The paths of the files that the initializers of the graph ask for, for a
/// model file in `dir`: what has to be in the table of files for the graph to
/// be built.
#[verifier::loop_isolation(false)]
pub fn external_paths(pbgraph: &GraphProto, dir: &str) -> (r: Vec<String>)
    ensures
        names_of(r@) == external_paths_of(dir@, pbgraph.initializer@),
{
    let ts = &pbgraph.initializer;
    let n = ts.len();
    let mut out: Vec<String> = Vec::new();
    let mut i: usize = 0;
    assert(names_of(out@) =~= Seq::<Seq<char>>::empty());
    assert(ts@.take(0) =~= Seq::<TensorProto>::empty());
    while i < n
        invariant
            i <= n,
            names_of(out@) == external_paths_of(
                dir@,
                ts@.take(i as int),
            ),
        decreases n - i,
    {
        let t = &ts[i];
        proof {
            assert(ts@.take(i + 1).drop_last() =~= ts@.take(i as int));
            assert(ts@.take(i + 1).last() == ts@[i as int]);
        }
        let external = match t.data_location {
            Some(code) => code == DataLocation::External.get_code(),
            None => false,
        };
        if t.raw_data.len() == 0 && external {
            let ghost head = names_of(out@);
            let m = t.external_data.len();
            let mut j: usize = 0;
            assert(head + entry_paths(dir@, t.external_data@).take(0) =~= head);
            while j < m
                invariant
                    j <= m,
                    names_of(out@) == head + entry_paths(
                        dir@,
                        t.external_data@,
                    ).take(j as int),
                decreases m - j,
            {
                let path = String::from_str(dir).concat("/").concat(
                    t.external_data[j].value.as_str(),
                );
                let ghost before = out@;
                out.push(path);
                proof {
                    let all = entry_paths(dir@, t.external_data@);
                    assert(path@ == all[j as int]);
                    assert(names_of(out@)
                        =~= names_of(before).push(path@));
                    assert(all.take(j + 1) =~= all.take(j as int).push(all[j as int]));
                    assert(names_of(out@) =~= head + all.take(j + 1));
                }
                j = j + 1;
            }
            proof {
                let all = entry_paths(dir@, t.external_data@);
                assert(all.take(m as int) =~= all);
            }
        }
        i = i + 1;
    }
    assert(ts@.take(n as int) =~= ts@);
    out
}

/// What the loader knows while it builds a graph.
pub struct ParsingContext<'a> {
    /// The version of the standard operators that the model was written for.
    pub onnx_operator_set_version: i64,
    /// The directory of the model file, where it is known.
    pub model_path: Option<&'a str>,
    /// What the files beside the model file hold, by path.
    pub files: &'a Table<Vec<u8>>,
}

impl<'a> ParsingContext<'a> {
    /// The graph that the message stands for. The tables of the initializers
    /// and of the declared values are built first; then each node becomes an
    /// operator, in the order of the nodes.
    ///
    /// A model is loaded whole or not at all: the first initializer, declared
    /// value, input, output or attribute that cannot be had ends the loading
    /// with its error.
    #[verifier::loop_isolation(false)]
    pub fn parse_graph(&self, pbgraph: &GraphProto) -> (r: Result<Graph, LoadError>)
        ensures
            match graph_built(*pbgraph, dir_view(self.model_path), self.files@) {
                Ok(graph) => r matches Ok(g) && g@ == graph,
                Err(error) => r matches Err(e) && e@ == error,
            },
    {
        let ghost dir = dir_view(self.model_path);
        let ghost files = self.files@;
        let mut initializers: Table<Tensor> = Table::new();
        let n = pbgraph.initializer.len();
        let mut i: usize = 0;
        proof {
            assert(pbgraph.initializer@.take(0) =~= Seq::<TensorProto>::empty());
            assert(tensor_views(initializers@) =~= Map::<Seq<char>, TensorView>::empty());
        }
        while i < n
            invariant
                i <= n,
                initializer_table(pbgraph.initializer@.take(i as int), dir, files) == Ok::<
                    Map<Seq<char>, TensorView>,
                    LoadErrorView,
                >(tensor_views(initializers@)),
            decreases n - i,
        {
            let t = &pbgraph.initializer[i];
            proof {
                let now = pbgraph.initializer@.take(i + 1);
                assert(now.drop_last() =~= pbgraph.initializer@.take(i as int));
                assert(now.last() == *t);
            }
            let ghost held = initializers@;
            match trans_tensor(t, self.model_path, self.files) {
                Ok(tensor) => {
                    initializers.insert(t.name.clone(), tensor);
                    assert(tensor_views(initializers@) =~= tensor_views(held).insert(
                        t.name@,
                        tensor@,
                    ));
                },
                Err(e) => {
                    proof {
                        lemma_initializer_table_fails(pbgraph.initializer@, dir, files, i + 1);
                    }
                    return Err(e);
                },
            }
            i = i + 1;
        }
        assert(pbgraph.initializer@.take(n as int) =~= pbgraph.initializer@);
        let ghost inits = tensor_views(initializers@);

        let mut value_infos: Table<Tensor> = Table::new();
        assert(tensor_views(value_infos@) =~= Map::<Seq<char>, TensorView>::empty());
        match add_value_infos(&mut value_infos, &pbgraph.value_info) {
            Ok(_) => {},
            Err(e) => {
                return Err(e);
            },
        }
        match add_value_infos(&mut value_infos, &pbgraph.input) {
            Ok(_) => {},
            Err(e) => {
                return Err(e);
            },
        }
        match add_value_infos(&mut value_infos, &pbgraph.output) {
            Ok(_) => {},
            Err(e) => {
                return Err(e);
            },
        }
        let ghost infos = tensor_views(value_infos@);

        let mut graph = Graph::new(pbgraph.name.as_str());
        let ghost start = graph@;
        let n = pbgraph.node.len();
        let mut i: usize = 0;
        while i < n
            invariant
                i <= n,
                walk(start, pbgraph.node@, 0, inits, infos) == walk(
                    graph@,
                    pbgraph.node@,
                    i as int,
                    tensor_views(initializers@),
                    infos,
                ),
            decreases n - i,
        {
            let pbnode = &pbgraph.node[i];
            let name = operator_name(i, pbnode);
            match build_op(name, pbnode, &mut initializers, &value_infos) {
                Ok(op) => {
                    graph = graph.with_operator(op);
                },
                Err(e) => {
                    return Err(e);
                },
            }
            i = i + 1;
        }
        Ok(graph)
    }
}

/// Puts the tensors of the declared values `vs` into `table`, by name.
#[verifier::loop_isolation(false)]
fn add_value_infos(table: &mut Table<Tensor>, vs: &Vec<ValueInfoProto>) -> (r: Result<
    (),
    LoadError,
>)
    ensures
        match value_table(tensor_views(old(table)@), vs@) {
            Ok(t) => r is Ok && tensor_views(final(table)@) == t,
            Err(error) => r matches Err(e) && e@ == error,
        },
{
    let n = vs.len();
    let mut i: usize = 0;
    assert(vs@.take(0) =~= Seq::<ValueInfoProto>::empty());
    while i < n
        invariant
            i <= n,
            value_table(tensor_views(old(table)@), vs@.take(i as int)) == Ok::<
                Map<Seq<char>, TensorView>,
                LoadErrorView,
            >(tensor_views(table@)),
        decreases n - i,
    {
        let v = &vs[i];
        proof {
            let now = vs@.take(i + 1);
            assert(now.drop_last() =~= vs@.take(i as int));
            assert(now.last() == *v);
        }
        let ghost held = table@;
        match trans_valueinfo(v) {
            Ok(tensor) => {
                table.insert(v.name.clone(), tensor);
                assert(tensor_views(table@) =~= tensor_views(held).insert(v.name@, tensor@));
            },
            Err(e) => {
                proof {
                    lemma_value_table_fails(tensor_views(old(table)@), vs@, i + 1);
                }
                return Err(e);
            },
        }
        i = i + 1;
    }
    assert(vs@.take(n as int) =~= vs@);
    Ok(())
}

/// Where the first `k` initializers give no table, all of them fail in the
/// same way.
pub proof fn lemma_initializer_table_fails(
    ts: Seq<TensorProto>,
    dir: Option<Seq<char>>,
    files: Map<Seq<char>, Vec<u8>>,
    k: int,
)
    requires
        0 <= k <= ts.len(),
        initializer_table(ts.take(k), dir, files) is Err,
    ensures
        initializer_table(ts, dir, files) == initializer_table(ts.take(k), dir, files),
    decreases ts.len() - k,
{
    if k < ts.len() {
        assert(ts.take(k + 1).drop_last() =~= ts.take(k));
        lemma_initializer_table_fails(ts, dir, files, k + 1);
    } else {
        assert(ts.take(k) =~= ts);
    }
}

/// Where the first `k` declared values give no table, all of them fail in
/// the same way.
pub proof fn lemma_value_table_fails(
    table: Map<Seq<char>, TensorView>,
    vs: Seq<ValueInfoProto>,
    k: int,
)
    requires
        0 <= k <= vs.len(),
        value_table(table, vs.take(k)) is Err,
    ensures
        value_table(table, vs) == value_table(table, vs.take(k)),
    decreases vs.len() - k,
{
    if k < vs.len() {
        assert(vs.take(k + 1).drop_last() =~= vs.take(k));
        lemma_value_table_fails(table, vs, k + 1);
    } else {
        assert(vs.take(k) =~= vs);
    }
}

/// The graph of a model. `dir` is the directory of the model file, and
/// `files` holds what the files beside it contain, by path. Fails with
/// `MissingGraph` where the model holds no graph, and else as `parse_graph`
/// does.
pub fn parser(proto: &ModelProto, dir: Option<&str>, files: &Table<Vec<u8>>) -> (r: Result<
    Graph,
    LoadError,
>)
    ensures
        match model_built(*proto, dir_view(dir), files@) {
            Ok(graph) => r matches Ok(g) && g@ == graph,
            Err(error) => r matches Err(e) && e@ == error,
        },
{
    let onnx_operator_set_version = opset_version(proto);
    let pbgraph = match &proto.graph {
        Some(g) => g,
        None => {
            return Err(LoadError::MissingGraph);
        },
    };
    let ctx = ParsingContext { onnx_operator_set_version, model_path: dir, files };
    ctx.parse_graph(pbgraph)
}

/// The graph of the model file at `model_file`, from what reading the file
/// gave: `FileNotFound` for a file that is not there, `DecodeError` for bytes
/// that are no message, and else the graph of the message.
pub fn parser_model(
    model_file: &str,
    read: &ModelFile,
    dir: Option<&str>,
    files: &Table<Vec<u8>>,
) -> (r: Result<Graph, LoadError>)
    ensures
        match loaded(model_file@, *read, dir_view(dir), files@) {
            Ok(graph) => r matches Ok(g) && g@ == graph,
            Err(error) => r matches Err(e) && e@ == error,
        },
{
    match read {
        ModelFile::Missing => Err(LoadError::FileNotFound { path: String::from_str(model_file) }),
        ModelFile::Malformed(reason) => Err(LoadError::DecodeError { reason: reason.clone() }),
        ModelFile::Decoded(proto) => parser(proto, dir, files),
    }
}

/// Loads the graph of the model file at `model_file`, from what reading the
/// file gave.
pub fn load(model_file: &str, read: &ModelFile, dir: Option<&str>, files: &Table<Vec<u8>>) -> (r:
    Result<Graph, LoadError>)
    ensures
        match loaded(model_file@, *read, dir_view(dir), files@) {
            Ok(graph) => r matches Ok(g) && g@ == graph,
            Err(error) => r matches Err(e) && e@ == error,
        },
{
    parser_model(model_file, read, dir, files)
}

} // verus!

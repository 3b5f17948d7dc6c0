//! The mathematical model of a network: its layers, its shape, and the
//! order of its parameters in a chromosome.
//!
//! A neuron is modelled by its genes: the bias, then one weight per input.
//! A chromosome lists the genes of every neuron, layer by layer and neuron
//! by neuron.

use crate::pieces::cuts_ascend;
use crate::pieces::cuts_follow;
use crate::pieces::lemma_flatten_pieces;
use crate::pieces::lemma_pieces_of_flatten;
use crate::pieces::pieces;
use vstd::prelude::*;

verus! {

/// The model of a layer: the width of the input it expects, and the genes
/// of each of its neurons.
pub struct LayerView<T> {
    pub inputs: nat,
    pub neurons: Seq<Seq<T>>,
}

/// Every neuron of the layer has a bias and one weight per input.
pub open spec fn layer_wf<T>(layer: LayerView<T>) -> bool {
    forall|k: int|
        0 <= k < layer.neurons.len() ==> (#[trigger] layer.neurons[k]).len() == layer.inputs + 1
}

/// There is a layer, every layer is well formed, and each layer expects as
/// many inputs as the layer before it has neurons.
pub open spec fn network_wf<T>(layers: Seq<LayerView<T>>) -> bool {
    &&& layers.len() >= 1
    &&& forall|i: int| 0 <= i < layers.len() ==> layer_wf(#[trigger] layers[i])
    &&& forall|i: int|
        0 < i < layers.len() ==> (#[trigger] layers[i]).inputs == layers[i - 1].neurons.len()
}

/// The widths of a network: that of its input, then the number of neurons
/// of each layer.
pub open spec fn shape_of<T>(layers: Seq<LayerView<T>>) -> Seq<nat> {
    Seq::new(
        layers.len() + 1,
        |i: int|
            if i == 0 {
                layers[0].inputs
            } else {
                layers[i - 1].neurons.len()
            },
    )
}

/// The widths of a shape descriptor as natural numbers.
pub open spec fn widths(shape: Seq<usize>) -> Seq<nat> {
    shape.map_values(|width: usize| width as nat)
}

/// The number of genes of the layer between widths `i` and `i + 1`.
pub open spec fn layer_size(shape: Seq<nat>, i: int) -> nat {
    (shape[i] + 1) * shape[i + 1]
}

/// The number of genes of the first `i` layers of a shape, which is where
/// the genes of layer `i` start in a chromosome.
pub open spec fn offset(shape: Seq<nat>, i: int) -> nat
    decreases i,
{
    if i <= 0 {
        0
    } else {
        offset(shape, i - 1) + layer_size(shape, i - 1)
    }
}

/// The number of parameters of a network of the given shape.
pub open spec fn parameter_count(shape: Seq<nat>) -> nat {
    offset(shape, shape.len() - 1)
}

/// The layer of `count` neurons with `inputs` inputs each whose genes are
/// `genes`.
pub open spec fn layer_from<T>(inputs: nat, count: nat, genes: Seq<T>) -> LayerView<T> {
    LayerView {
        inputs,
        neurons: Seq::new(
            count,
            |k: int| genes.subrange(k * (inputs + 1), (k + 1) * (inputs + 1)),
        ),
    }
}

/// The network of the given shape whose chromosome is `genes`.
pub open spec fn network_from<T>(shape: Seq<nat>, genes: Seq<T>) -> Seq<LayerView<T>> {
    Seq::new(
        (shape.len() - 1) as nat,
        |i: int|
            layer_from(
                shape[i],
                shape[i + 1],
                genes.subrange(offset(shape, i) as int, offset(shape, i + 1) as int),
            ),
    )
}

/// The genes of a layer: those of its neurons, in order.
pub open spec fn layer_genes<T>(layer: LayerView<T>) -> Seq<T> {
    layer.neurons.flatten()
}

/// The chromosome of a network: the genes of its layers, in order.
pub open spec fn network_genes<T>(layers: Seq<LayerView<T>>) -> Seq<T> {
    layers.map_values(|layer: LayerView<T>| layer_genes(layer)).flatten()
}

/// Offsets never step back.
pub proof fn lemma_offset_ascends(shape: Seq<nat>, i: int, j: int)
    requires
        i <= j,
    ensures
        offset(shape, i) <= offset(shape, j),
    decreases j - i,
{
    if i < j {
        lemma_offset_ascends(shape, i, j - 1);
    }
}

/// A layer rebuilt from genes has those genes, and is well formed.
pub proof fn lemma_layer_from_genes<T>(inputs: nat, count: nat, genes: Seq<T>)
    requires
        genes.len() == (inputs + 1) * count,
    ensures
        layer_wf(layer_from(inputs, count, genes)),
        layer_genes(layer_from(inputs, count, genes)) == genes,
{
    let width = inputs + 1;
    let cut = |k: int| k * width;
    assert(cuts_ascend(cut, count)) by {
        assert forall|k: int| 0 <= k < count implies #[trigger] cut(k) <= cut(k + 1) by {
            assert(k * width <= (k + 1) * width) by (nonlinear_arith)
                requires
                    0 <= width,
            ;
        }
    }
    assert(cut(count as int) == genes.len()) by (nonlinear_arith)
        requires
            cut(count as int) == count * width,
            genes.len() == width * count,
    ;
    lemma_flatten_pieces(genes, cut, count);
    assert(pieces(genes, cut, count) == layer_from(inputs, count, genes).neurons);
    assert(genes.take(genes.len() as int) == genes);
    assert forall|k: int| 0 <= k < count implies (#[trigger] layer_from(
        inputs,
        count,
        genes,
    ).neurons[k]).len() == inputs + 1 by {
        assert(0 <= k * width && (k + 1) * width <= count * width && (k + 1) * width - k * width
            == width) by (nonlinear_arith)
            requires
                0 <= k < count,
                0 <= width,
        ;
    }
}

/// A well-formed layer has one gene block per neuron, and rebuilding it
/// from its genes gives the layer back.
pub proof fn lemma_layer_of_genes<T>(layer: LayerView<T>)
    requires
        layer_wf(layer),
    ensures
        layer_genes(layer).len() == (layer.inputs + 1) * layer.neurons.len(),
        layer_from(layer.inputs, layer.neurons.len(), layer_genes(layer)) == layer,
{
    let width = layer.inputs + 1;
    let cut = |k: int| k * width;
    assert(cuts_follow(cut, layer.neurons)) by {
        assert forall|k: int| 0 <= k < layer.neurons.len() implies cut(k + 1) == #[trigger] cut(k)
            + layer.neurons[k].len() by {
            assert((k + 1) * width == k * width + width) by (nonlinear_arith);
        }
    }
    lemma_pieces_of_flatten(layer.neurons, cut);
    assert(cut(layer.neurons.len() as int) == width * layer.neurons.len()) by (nonlinear_arith)
        requires
            cut(layer.neurons.len() as int) == layer.neurons.len() * width,
    ;
    assert(layer_from(layer.inputs, layer.neurons.len(), layer_genes(layer)).neurons == pieces(
        layer_genes(layer),
        cut,
        layer.neurons.len(),
    ));
}

/// A network rebuilt from a chromosome has the shape asked for, is well
/// formed, and has that chromosome.
pub proof fn lemma_network_from_genes<T>(shape: Seq<nat>, genes: Seq<T>)
    requires
        shape.len() >= 2,
        genes.len() == parameter_count(shape),
    ensures
        network_wf(network_from(shape, genes)),
        shape_of(network_from(shape, genes)) == shape,
        network_genes(network_from(shape, genes)) == genes,
{
    let network = network_from(shape, genes);
    let count = (shape.len() - 1) as nat;
    let cut = |i: int| offset(shape, i) as int;
    assert(cuts_ascend(cut, count));
    lemma_flatten_pieces(genes, cut, count);
    assert(genes.take(genes.len() as int) == genes);
    assert forall|i: int| 0 <= i < count implies layer_wf(#[trigger] network[i]) && layer_genes(
        network[i],
    ) == pieces(genes, cut, count)[i] by {
        lemma_offset_ascends(shape, i + 1, count as int);
        lemma_layer_from_genes(shape[i], shape[i + 1], pieces(genes, cut, count)[i]);
    }
    assert(network.map_values(|layer: LayerView<T>| layer_genes(layer)) == pieces(
        genes,
        cut,
        count,
    ));
    assert(shape_of(network) == shape);
}

/// The chromosome of a well-formed network has one gene per parameter of
/// its shape, and rebuilding the network from it gives the network back.
pub proof fn lemma_network_of_genes<T>(layers: Seq<LayerView<T>>)
    requires
        network_wf(layers),
    ensures
        shape_of(layers).len() >= 2,
        network_genes(layers).len() == parameter_count(shape_of(layers)),
        network_from(shape_of(layers), network_genes(layers)) == layers,
{
    let shape = shape_of(layers);
    let blocks = layers.map_values(|layer: LayerView<T>| layer_genes(layer));
    let cut = |i: int| offset(shape, i) as int;
    assert forall|i: int| 0 <= i < layers.len() implies (#[trigger] blocks[i]).len() == layer_size(
        shape,
        i,
    ) && layer_from(shape[i], shape[i + 1], blocks[i]) == layers[i] by {
        lemma_layer_of_genes(layers[i]);
        if i > 0 {
            assert(layers[i].inputs == layers[i - 1].neurons.len());
        }
    }
    assert(cuts_follow(cut, blocks)) by {
        assert forall|i: int| 0 <= i < blocks.len() implies cut(i + 1) == #[trigger] cut(i)
            + blocks[i].len() by {
            assert(blocks[i].len() == layer_size(shape, i));
        }
    }
    lemma_pieces_of_flatten(blocks, cut);
    let rebuilt = network_from(shape, network_genes(layers));
    assert forall|i: int| 0 <= i < layers.len() implies #[trigger] rebuilt[i] == layers[i] by {
        assert(pieces(blocks.flatten(), cut, blocks.len())[i] == blocks[i]);
        assert(layer_from(shape[i], shape[i + 1], blocks[i]) == layers[i]);
    }
    assert(rebuilt == layers);
}

} // verus!

//! Feedforward networks: neurons, layers, and the pass of a signal through
//! them.
//!
//! What a neuron computes from its bias, its weights and its inputs is the
//! caller's: it is handed in as the function value `activation`. The crate
//! decides which neuron is asked about which inputs, and in what order.

use crate::error::PreconditionViolation;
use crate::topology::layer_from;
use crate::topology::layer_genes;
use crate::topology::layer_size;
use crate::topology::layer_wf;
use crate::topology::lemma_layer_from_genes;
use crate::topology::lemma_network_from_genes;
use crate::topology::lemma_network_of_genes;
use crate::topology::lemma_offset_ascends;
use crate::topology::network_from;
use crate::topology::network_genes;
use crate::topology::network_wf;
use crate::topology::offset;
use crate::topology::parameter_count;
use crate::topology::shape_of;
use crate::topology::widths;
use crate::topology::LayerView;
use rand_chacha::ChaCha8Rng;
use vstd::prelude::*;

verus! {

/// One neuron: a bias and one weight per input. Its model is the sequence
/// of its genes, the bias first and then the weights in input order.
#[derive(Debug, PartialEq)]
pub struct Neuron<T> {
    bias: T,
    weights: Vec<T>,
}

impl<T> View for Neuron<T> {
    type V = Seq<T>;

    closed spec fn view(&self) -> Seq<T> {
        seq![self.bias] + self.weights@
    }
}

/// `output` is a value that `activation` can return for a neuron with the
/// genes `neuron` on the inputs `inputs`.
pub open spec fn fires<T, F: Fn(&Neuron<T>, &[T]) -> T>(
    activation: F,
    neuron: Seq<T>,
    inputs: Seq<T>,
    output: T,
) -> bool {
    exists|n: &Neuron<T>, x: &[T]|
        n@ == neuron && x@ == inputs && call_ensures(activation, (n, x), output)
}

/// `activation` can be called on every neuron together with as many inputs
/// as the neuron has weights.
pub open spec fn accepts<T, F: Fn(&Neuron<T>, &[T]) -> T>(activation: F) -> bool {
    forall|n: &Neuron<T>, x: &[T]| n@.len() == x@.len() + 1 ==> call_requires(activation, (n, x))
}

impl<T> Neuron<T> {
    /// The neuron with the given bias and weights.
    pub fn new(bias: T, weights: Vec<T>) -> (neuron: Self)
        ensures
            neuron@ == seq![bias] + weights@,
    {
        Neuron { bias, weights }
    }

    /// The bias, which is the first gene.
    pub fn bias(&self) -> (bias: &T)
        ensures
            self@.len() >= 1,
            *bias == self@[0],
    {
        &self.bias
    }

    /// The weights, which are the genes after the first.
    pub fn weights(&self) -> (weights: &[T])
        ensures
            self@.len() >= 1,
            weights@ == self@.skip(1),
    {
        self.weights.as_slice()
    }

    /// A neuron with `inputs` inputs whose parameters are drawn by `draw`
    /// from `rng`: the bias first, then the weights in input order.
    pub fn random<F: Fn(&mut ChaCha8Rng) -> T>(rng: &mut ChaCha8Rng, inputs: usize, draw: &F) -> (neuron:
        Self)
        requires
            draws(*draw),
        ensures
            neuron@.len() == inputs + 1,
            neuron_drawn(*draw, neuron@),
    {
        let bias = draw(rng);
        let mut weights: Vec<T> = Vec::new();
        let mut j: usize = 0;
        while j < inputs
            invariant
                draws(*draw),
                j <= inputs,
                weights.len() == j,
                forall|i: int| 0 <= i < j ==> drawn(*draw, #[trigger] weights[i]),
            decreases inputs - j,
        {
            weights.push(draw(rng));
            j += 1;
        }
        Neuron { bias, weights }
    }

    /// The neuron whose genes are the `inputs + 1` genes from `position` on.
    fn from_genes(inputs: usize, genes: &Vec<T>, position: usize) -> (neuron: Self) where T: Copy
        requires
            position + inputs + 1 <= genes.len(),
        ensures
            neuron@ == genes@.subrange(position as int, position + inputs + 1),
    {
        let bias = genes[position];
        let mut weights: Vec<T> = Vec::new();
        let mut j: usize = 0;
        while j < inputs
            invariant
                position + inputs + 1 <= genes.len(),
                j <= inputs,
                weights@ == genes@.subrange(position + 1, position + 1 + j),
            decreases inputs - j,
        {
            weights.push(genes[position + 1 + j]);
            j += 1;
        }
        Neuron { bias, weights }
    }

    /// Appends the genes of this neuron to `genes`.
    fn append_genes(&self, genes: &mut Vec<T>) where T: Copy
        ensures
            final(genes)@ == old(genes)@ + self@,
    {
        genes.push(self.bias);
        let mut j: usize = 0;
        while j < self.weights.len()
            invariant
                j <= self.weights.len(),
                genes@ == old(genes)@ + seq![self.bias] + self.weights@.take(j as int),
            decreases self.weights.len() - j,
        {
            genes.push(self.weights[j]);
            j += 1;
        }
        assert(self.weights@.take(j as int) == self.weights@);
    }

    /// The output of this neuron on `inputs`, which must be as many as the
    /// neuron has weights.
    pub fn propagate<F: Fn(&Neuron<T>, &[T]) -> T>(&self, inputs: &[T], activation: &F) -> (output:
        Result<T, PreconditionViolation>)
        requires
            accepts(*activation),
        ensures
            output is Ok <==> self@.len() == inputs@.len() + 1,
            output is Err ==> output == Err::<T, _>(PreconditionViolation::InputWidthMismatch),
            output matches Ok(value) ==> fires(*activation, self@, inputs@, value),
    {
        if self.weights.len() != inputs.len() {
            return Err(PreconditionViolation::InputWidthMismatch);
        }
        Ok(activation(self, inputs))
    }
}

/// `draw` can be called on every state of the random source.
pub open spec fn draws<T, F: Fn(&mut ChaCha8Rng) -> T>(draw: F) -> bool {
    forall|source: &mut ChaCha8Rng| call_requires(draw, (source,))
}

/// `value` is a value that `draw` can return.
pub open spec fn drawn<T, F: Fn(&mut ChaCha8Rng) -> T>(draw: F, value: T) -> bool {
    exists|source: &mut ChaCha8Rng| call_ensures(draw, (source,), value)
}

/// Every gene of the neuron is a value that `draw` can return.
pub open spec fn neuron_drawn<T, F: Fn(&mut ChaCha8Rng) -> T>(draw: F, neuron: Seq<T>) -> bool {
    forall|j: int| 0 <= j < neuron.len() ==> drawn(draw, #[trigger] neuron[j])
}

/// Every gene of every neuron of the layer is a value that `draw` can
/// return.
pub open spec fn layer_drawn<T, F: Fn(&mut ChaCha8Rng) -> T>(draw: F, layer: LayerView<T>) -> bool {
    forall|k: int| 0 <= k < layer.neurons.len() ==> neuron_drawn(draw, #[trigger] layer.neurons[k])
}

/// `outputs` holds, for each neuron of `layer` in order, a value that
/// `activation` can return for it on `inputs`.
pub open spec fn layer_fires<T, F: Fn(&Neuron<T>, &[T]) -> T>(
    activation: F,
    layer: LayerView<T>,
    inputs: Seq<T>,
    outputs: Seq<T>,
) -> bool {
    &&& outputs.len() == layer.neurons.len()
    &&& forall|k: int|
        0 <= k < outputs.len() ==> fires(activation, layer.neurons[k], inputs, #[trigger] outputs[k])
}

/// `outputs` is a signal that can leave the last of `layers` when `inputs`
/// enters the first and each layer is fed what the layer before it gave.
pub open spec fn feeds_forward<T, F: Fn(&Neuron<T>, &[T]) -> T>(
    activation: F,
    layers: Seq<LayerView<T>>,
    inputs: Seq<T>,
    outputs: Seq<T>,
) -> bool
    decreases layers.len(),
{
    if layers.len() == 0 {
        outputs == inputs
    } else {
        exists|signal: Seq<T>|
            feeds_forward(activation, layers.drop_last(), inputs, signal) && #[trigger] layer_fires(
                activation,
                layers.last(),
                signal,
                outputs,
            )
    }
}

/// An ordered sequence of neurons that share one input vector.
#[derive(Debug, PartialEq)]
pub struct Layer<T> {
    inputs: usize,
    neurons: Vec<Neuron<T>>,
}

impl<T> View for Layer<T> {
    type V = LayerView<T>;

    closed spec fn view(&self) -> LayerView<T> {
        LayerView {
            inputs: self.inputs as nat,
            neurons: self.neurons@.map_values(|neuron: Neuron<T>| neuron@),
        }
    }
}

impl<T> Layer<T> {
    /// Every neuron has as many weights as the layer expects inputs.
    #[verifier::type_invariant]
    pub open spec fn wf(self) -> bool {
        layer_wf(self@)
    }

    /// The width of the input vector this layer expects.
    pub fn input_width(&self) -> (width: usize)
        ensures
            width == self@.inputs,
    {
        self.inputs
    }

    /// The neurons, in order.
    pub fn neurons(&self) -> (neurons: &[Neuron<T>])
        ensures
            neurons@.map_values(|neuron: Neuron<T>| neuron@) == self@.neurons,
    {
        self.neurons.as_slice()
    }

    /// The number of neurons, which is the width of the output.
    pub fn neuron_count(&self) -> (count: usize)
        ensures
            count == self@.neurons.len(),
    {
        self.neurons.len()
    }

    /// A layer of `neurons` neurons with `inputs` inputs each, whose
    /// parameters are drawn by `draw` from `rng`, neuron by neuron.
    pub fn random<F: Fn(&mut ChaCha8Rng) -> T>(
        rng: &mut ChaCha8Rng,
        inputs: usize,
        neurons: usize,
        draw: &F,
    ) -> (layer: Self)
        requires
            draws(*draw),
        ensures
            layer@.inputs == inputs,
            layer@.neurons.len() == neurons,
            layer_drawn(*draw, layer@),
    {
        let mut built: Vec<Neuron<T>> = Vec::new();
        let mut k: usize = 0;
        while k < neurons
            invariant
                draws(*draw),
                k <= neurons,
                built.len() == k,
                forall|j: int|
                    0 <= j < k ==> (#[trigger] built[j])@.len() == inputs + 1 && neuron_drawn(
                        *draw,
                        built[j]@,
                    ),
            decreases neurons - k,
        {
            built.push(Neuron::random(rng, inputs, draw));
            k += 1;
        }
        proof {
            let model = built@.map_values(|neuron: Neuron<T>| neuron@);
            assert forall|j: int| 0 <= j < model.len() implies (#[trigger] model[j]).len() == inputs
                + 1 && neuron_drawn(*draw, model[j]) by {
                assert(built[j]@.len() == inputs + 1);
            }
        }
        Layer { inputs, neurons: built }
    }

    /// The layer of `count` neurons with `inputs` inputs each whose genes
    /// start at `start`, together with the position behind its last gene.
    fn from_genes(inputs: usize, count: usize, genes: &Vec<T>, start: usize) -> (built: (
        Self,
        usize,
    )) where T: Copy
        requires
            start + layer_size(seq![inputs as nat, count as nat], 0) <= genes.len(),
        ensures
            built.1 == start + layer_size(seq![inputs as nat, count as nat], 0),
            built.0@ == layer_from(
                inputs as nat,
                count as nat,
                genes@.subrange(start as int, built.1 as int),
            ),
    {
        let ghost width = inputs + 1;
        let ghost size = width * count;
        let ghost block = genes@.subrange(start as int, start + size);
        let ghost model = layer_from(inputs as nat, count as nat, block);
        let mut neurons: Vec<Neuron<T>> = Vec::new();
        let mut position: usize = start;
        let mut k: usize = 0;
        while k < count
            invariant
                width == inputs + 1,
                size == width * count,
                start + size <= genes.len(),
                block == genes@.subrange(start as int, start + size),
                model == layer_from(inputs as nat, count as nat, block),
                k <= count,
                position == start + k * width,
                neurons.len() == k,
                forall|j: int| 0 <= j < k ==> (#[trigger] neurons[j])@ == model.neurons[j],
            decreases count - k,
        {
            assert(0 <= k * width && (k + 1) * width <= size && (k + 1) * width == k * width
                + width) by (nonlinear_arith)
                requires
                    0 <= k < count,
                    0 <= width,
                    size == width * count,
            ;
            let neuron = Neuron::from_genes(inputs, genes, position);
            assert(neuron@ == block.subrange(k * width, (k + 1) * width));
            neurons.push(neuron);
            position = position + inputs + 1;
            k += 1;
        }
        proof {
            assert(count * width == size) by (nonlinear_arith)
                requires
                    size == width * count,
            ;
            lemma_layer_from_genes(inputs as nat, count as nat, block);
            assert(neurons@.map_values(|neuron: Neuron<T>| neuron@) == model.neurons);
        }
        (Layer { inputs, neurons }, position)
    }

    /// Appends the genes of this layer to `genes`.
    fn append_genes(&self, genes: &mut Vec<T>) where T: Copy
        ensures
            final(genes)@ == old(genes)@ + layer_genes(self@),
    {
        let mut k: usize = 0;
        assert(self@.neurons.take(0) == Seq::<Seq<T>>::empty());
        while k < self.neurons.len()
            invariant
                k <= self.neurons.len(),
                genes@ == old(genes)@ + self@.neurons.take(k as int).flatten(),
            decreases self.neurons.len() - k,
        {
            proof {
                let done = self@.neurons.take(k as int);
                assert(self@.neurons.take(k + 1) == done.push(self@.neurons[k as int]));
                done.lemma_flatten_push(self@.neurons[k as int]);
            }
            self.neurons[k].append_genes(genes);
            k += 1;
        }
        assert(self@.neurons.take(k as int) == self@.neurons);
    }

    /// The outputs of the neurons of this layer on `inputs`, one per neuron
    /// and in neuron order.
    pub fn propagate<F: Fn(&Neuron<T>, &[T]) -> T>(&self, inputs: Vec<T>, activation: &F) -> (outputs:
        Result<Vec<T>, PreconditionViolation>)
        requires
            accepts(*activation),
        ensures
            outputs is Ok <==> inputs.len() == self@.inputs,
            outputs is Err ==> outputs == Err::<Vec<T>, _>(
                PreconditionViolation::InputWidthMismatch,
            ),
            outputs matches Ok(values) ==> values.len() == self@.neurons.len() && layer_fires(
                *activation,
                self@,
                inputs@,
                values@,
            ),
    {
        proof {
            use_type_invariant(self);
        }
        if inputs.len() != self.inputs {
            return Err(PreconditionViolation::InputWidthMismatch);
        }
        let mut values: Vec<T> = Vec::new();
        let mut k: usize = 0;
        while k < self.neurons.len()
            invariant
                accepts(*activation),
                layer_wf(self@),
                inputs.len() == self@.inputs,
                k <= self.neurons.len(),
                values.len() == k,
                forall|j: int|
                    0 <= j < k ==> fires(*activation, self@.neurons[j], inputs@, #[trigger] values[j]),
            decreases self.neurons.len() - k,
        {
            let neuron = &self.neurons[k];
            assert(neuron@ == self@.neurons[k as int]);
            let value = activation(neuron, inputs.as_slice());
            values.push(value);
            k += 1;
        }
        Ok(values)
    }
}

/// An ordered sequence of layers, each fed by the one before it.
#[derive(Debug, PartialEq)]
pub struct Network<T> {
    layers: Vec<Layer<T>>,
}

impl<T> View for Network<T> {
    type V = Seq<LayerView<T>>;

    closed spec fn view(&self) -> Seq<LayerView<T>> {
        self.layers@.map_values(|layer: Layer<T>| layer@)
    }
}

impl<T> Network<T> {
    /// There is a layer, and the layers chain: each expects as many inputs
    /// as the one before it has neurons.
    #[verifier::type_invariant]
    pub open spec fn wf(self) -> bool {
        network_wf(self@)
    }

    /// The layers, in order.
    pub fn layers(&self) -> (layers: &[Layer<T>])
        ensures
            layers@.map_values(|layer: Layer<T>| layer@) == self@,
    {
        self.layers.as_slice()
    }

    /// The number of parameters of a network of the given shape: for each
    /// layer, one bias and one weight per input for each of its neurons.
    pub fn parameter_count(shape: &[usize]) -> (count: Result<usize, PreconditionViolation>)
        ensures
            count is Ok <==> shape.len() >= 2 && parameter_count(widths(shape@)) <= usize::MAX,
            shape.len() < 2 <==> count == Err::<usize, _>(PreconditionViolation::ShapeTooShort),
            count is Err ==> count == Err::<usize, _>(PreconditionViolation::ShapeTooShort)
                || count == Err::<usize, _>(PreconditionViolation::ShapeTooLarge),
            count matches Ok(parameters) ==> parameters == parameter_count(widths(shape@)),
    {
        if shape.len() < 2 {
            return Err(PreconditionViolation::ShapeTooShort);
        }
        let ghost math = widths(shape@);
        let mut total: usize = 0;
        let mut i: usize = 0;
        while i + 1 < shape.len()
            invariant
                shape.len() >= 2,
                math == widths(shape@),
                i + 1 <= shape.len(),
                total == offset(math, i as int),
            decreases shape.len() - i,
        {
            let inputs = shape[i];
            let neurons = shape[i + 1];
            assert((inputs + 1) * neurons <= 0x1_0000_0000_0000_0000 * 0xffff_ffff_ffff_ffff)
                by (nonlinear_arith)
                requires
                    0 <= inputs + 1 <= 0x1_0000_0000_0000_0000,
                    0 <= neurons <= 0xffff_ffff_ffff_ffff,
            ;
            let size: u128 = (inputs as u128 + 1) * (neurons as u128);
            proof {
                assert(size == layer_size(math, i as int));
                lemma_offset_ascends(math, i + 1, shape.len() - 1);
            }
            if size > (usize::MAX - total) as u128 {
                return Err(PreconditionViolation::ShapeTooLarge);
            }
            total = total + size as usize;
            i += 1;
        }
        Ok(total)
    }

    /// The network of the given shape whose parameters are the genes of
    /// `chromosome`, in chromosome order: layer by layer, neuron by neuron,
    /// the bias and then the weights in input order.
    pub fn from_chromosome(shape: &[usize], chromosome: &Vec<T>) -> (network: Result<
        Self,
        PreconditionViolation,
    >) where T: Copy
        ensures
            network is Ok <==> shape.len() >= 2 && chromosome.len() == parameter_count(
                widths(shape@),
            ),
            shape.len() < 2 <==> network == Err::<Self, _>(PreconditionViolation::ShapeTooShort),
            network is Err ==> network == Err::<Self, _>(PreconditionViolation::ShapeTooShort)
                || network == Err::<Self, _>(PreconditionViolation::ChromosomeLengthMismatch),
            network matches Ok(built) ==> built@ == network_from(widths(shape@), chromosome@),
    {
        let total = match Self::parameter_count(shape) {
            Ok(total) => total,
            Err(PreconditionViolation::ShapeTooShort) => {
                return Err(PreconditionViolation::ShapeTooShort);
            },
            Err(_) => {
                return Err(PreconditionViolation::ChromosomeLengthMismatch);
            },
        };
        if chromosome.len() != total {
            return Err(PreconditionViolation::ChromosomeLengthMismatch);
        }
        let ghost math = widths(shape@);
        let ghost model = network_from(math, chromosome@);
        let mut layers: Vec<Layer<T>> = Vec::new();
        let mut start: usize = 0;
        let mut i: usize = 0;
        while i + 1 < shape.len()
            invariant
                shape.len() >= 2,
                math == widths(shape@),
                model == network_from(math, chromosome@),
                chromosome.len() == parameter_count(math),
                i + 1 <= shape.len(),
                start == offset(math, i as int),
                layers.len() == i,
                forall|j: int| 0 <= j < i ==> (#[trigger] layers[j])@ == model[j],
            decreases shape.len() - i,
        {
            proof {
                lemma_offset_ascends(math, i + 1, shape.len() - 1);
                assert(layer_size(seq![shape[i as int] as nat, shape[i + 1] as nat], 0)
                    == layer_size(math, i as int));
            }
            let (layer, end) = Layer::from_genes(shape[i], shape[i + 1], chromosome, start);
            layers.push(layer);
            start = end;
            i += 1;
        }
        proof {
            lemma_network_from_genes(math, chromosome@);
            assert(layers@.map_values(|layer: Layer<T>| layer@) == model);
        }
        Ok(Network { layers })
    }

    /// A network of the given shape whose parameters are drawn by `draw`
    /// from `rng`, one after the other: layer by layer, neuron by neuron,
    /// the bias and then the weights in input order.
    pub fn random<F: Fn(&mut ChaCha8Rng) -> T>(rng: &mut ChaCha8Rng, shape: &[usize], draw: &F) -> (network:
        Result<Self, PreconditionViolation>)
        requires
            draws(*draw),
        ensures
            network is Ok <==> shape.len() >= 2,
            network is Err ==> network == Err::<Self, _>(PreconditionViolation::ShapeTooShort),
            network matches Ok(built) ==> shape_of(built@) == widths(shape@) && forall|i: int|
                0 <= i < built@.len() ==> layer_drawn(*draw, #[trigger] built@[i]),
    {
        if shape.len() < 2 {
            return Err(PreconditionViolation::ShapeTooShort);
        }
        let mut layers: Vec<Layer<T>> = Vec::new();
        let mut i: usize = 0;
        while i + 1 < shape.len()
            invariant
                draws(*draw),
                shape.len() >= 2,
                i + 1 <= shape.len(),
                layers.len() == i,
                forall|j: int|
                    0 <= j < i ==> {
                        &&& layer_wf((#[trigger] layers[j])@)
                        &&& layers[j]@.inputs == shape[j]
                        &&& layers[j]@.neurons.len() == shape[j + 1]
                        &&& layer_drawn(*draw, layers[j]@)
                    },
            decreases shape.len() - i,
        {
            let layer = Layer::random(rng, shape[i], shape[i + 1], draw);
            proof {
                use_type_invariant(&layer);
            }
            layers.push(layer);
            i += 1;
        }
        proof {
            let model = layers@.map_values(|layer: Layer<T>| layer@);
            assert(network_wf(model)) by {
                assert forall|j: int| 0 <= j < model.len() implies layer_wf(#[trigger] model[j]) by {
                    assert(layer_wf(layers[j]@));
                }
                assert forall|j: int| 0 < j < model.len() implies (#[trigger] model[j]).inputs
                    == model[j - 1].neurons.len() by {
                    assert(layers[j]@.inputs == shape[j]);
                    assert(layers[j - 1]@.neurons.len() == shape[j - 1 + 1]);
                }
            }
            assert(shape_of(model) == widths(shape@)) by {
                assert(layers[0]@.inputs == shape[0]);
                assert forall|j: int| 0 < j < shape.len() implies shape_of(model)[j] == widths(
                    shape@,
                )[j] by {
                    assert(layers[j - 1]@.neurons.len() == shape[j - 1 + 1]);
                }
            }
            assert forall|j: int| 0 <= j < model.len() implies layer_drawn(
                *draw,
                #[trigger] model[j],
            ) by {
                assert(layer_drawn(*draw, layers[j]@));
            }
        }
        Ok(Network { layers })
    }

    /// The widths of this network: that of its input, then the number of
    /// neurons of each layer.
    pub fn shape(&self) -> (shape: Vec<usize>)
        ensures
            widths(shape@) == shape_of(self@),
    {
        proof {
            use_type_invariant(self);
        }
        let mut shape: Vec<usize> = Vec::new();
        shape.push(self.layers[0].input_width());
        let mut i: usize = 0;
        while i < self.layers.len()
            invariant
                network_wf(self@),
                self@.len() == self.layers.len(),
                i <= self.layers.len(),
                shape.len() == i + 1,
                forall|j: int| 0 <= j <= i ==> #[trigger] shape[j] as nat == shape_of(self@)[j],
            decreases self.layers.len() - i,
        {
            let layer = &self.layers[i];
            assert(layer@ == self@[i as int]);
            shape.push(layer.neuron_count());
            i += 1;
        }
        assert(widths(shape@) == shape_of(self@));
        shape
    }

    /// The parameters of this network as one flat sequence, in chromosome
    /// order.
    pub fn chromosome(&self) -> (genes: Vec<T>) where T: Copy
        ensures
            genes@ == network_genes(self@),
    {
        let ghost blocks = self@.map_values(|layer: LayerView<T>| layer_genes(layer));
        let mut genes: Vec<T> = Vec::new();
        let mut i: usize = 0;
        assert(blocks.take(0) == Seq::<Seq<T>>::empty());
        while i < self.layers.len()
            invariant
                blocks == self@.map_values(|layer: LayerView<T>| layer_genes(layer)),
                self@.len() == self.layers.len(),
                i <= self.layers.len(),
                genes@ == blocks.take(i as int).flatten(),
            decreases self.layers.len() - i,
        {
            let layer = &self.layers[i];
            proof {
                assert(layer@ == self@[i as int]);
                let done = blocks.take(i as int);
                assert(blocks.take(i + 1) == done.push(layer_genes(layer@)));
                done.lemma_flatten_push(layer_genes(layer@));
            }
            layer.append_genes(&mut genes);
            i += 1;
        }
        assert(blocks.take(i as int) == blocks);
        genes
    }

    /// A network of the same shape as this one whose parameters are the
    /// genes of `chromosome`.
    pub fn with_chromosome(&self, chromosome: &Vec<T>) -> (network: Result<
        Self,
        PreconditionViolation,
    >) where T: Copy
        ensures
            network is Ok <==> chromosome.len() == parameter_count(shape_of(self@)),
            network is Err ==> network == Err::<Self, _>(
                PreconditionViolation::ChromosomeLengthMismatch,
            ),
            network matches Ok(built) ==> built@ == network_from(shape_of(self@), chromosome@),
    {
        proof {
            use_type_invariant(self);
        }
        let shape = self.shape();
        Self::from_chromosome(shape.as_slice(), chromosome)
    }

    /// The output of the last layer when `inputs` is fed to the first and
    /// every layer to the next.
    pub fn propagate<F: Fn(&Neuron<T>, &[T]) -> T>(&self, inputs: Vec<T>, activation: &F) -> (outputs:
        Result<Vec<T>, PreconditionViolation>)
        requires
            accepts(*activation),
        ensures
            outputs is Ok <==> inputs.len() == self@[0].inputs,
            outputs is Err ==> outputs == Err::<Vec<T>, _>(
                PreconditionViolation::InputWidthMismatch,
            ),
            outputs matches Ok(values) ==> values.len() == self@.last().neurons.len()
                && feeds_forward(*activation, self@, inputs@, values@),
    {
        proof {
            use_type_invariant(self);
        }
        if inputs.len() != self.layers[0].input_width() {
            return Err(PreconditionViolation::InputWidthMismatch);
        }
        let ghost entered = inputs@;
        let mut signal = inputs;
        let mut i: usize = 0;
        while i < self.layers.len()
            invariant
                accepts(*activation),
                network_wf(self@),
                self@.len() == self.layers.len(),
                i <= self.layers.len(),
                i < self.layers.len() ==> signal.len() == self@[i as int].inputs,
                i > 0 ==> signal.len() == self@[i - 1].neurons.len(),
                feeds_forward(*activation, self@.take(i as int), entered, signal@),
            decreases self.layers.len() - i,
        {
            let layer = &self.layers[i];
            assert(layer@ == self@[i as int]);
            let ghost fed = signal@;
            match layer.propagate(signal, activation) {
                Ok(values) => {
                    proof {
                        let upto = self@.take(i + 1);
                        assert(upto.drop_last() == self@.take(i as int));
                        assert(upto.last() == self@[i as int]);
                        assert(layer_fires(*activation, upto.last(), fed, values@));
                        if i + 1 < self.layers.len() {
                            assert(self@[i + 1].inputs == self@[i + 1 - 1].neurons.len());
                        }
                    }
                    signal = values;
                },
                Err(violation) => {
                    return Err(violation);
                },
            }
            i += 1;
        }
        proof {
            assert(self@.take(i as int) == self@);
        }
        Ok(signal)
    }
}

/// A signal that leaves a network has left its last layer, which was fed a
/// signal that left the layers before it.
pub proof fn lemma_feeds_forward_step<T, F: Fn(&Neuron<T>, &[T]) -> T>(
    activation: F,
    layers: Seq<LayerView<T>>,
    inputs: Seq<T>,
    outputs: Seq<T>,
) -> (signal: Seq<T>)
    requires
        layers.len() > 0,
        feeds_forward(activation, layers, inputs, outputs),
    ensures
        feeds_forward(activation, layers.drop_last(), inputs, signal),
        layer_fires(activation, layers.last(), signal, outputs),
{
    choose|signal: Seq<T>|
        feeds_forward(activation, layers.drop_last(), inputs, signal) && #[trigger] layer_fires(
            activation,
            layers.last(),
            signal,
            outputs,
        )
}

/// A signal that leaves a network is as wide as the last layer has
/// neurons.
pub proof fn lemma_output_width<T, F: Fn(&Neuron<T>, &[T]) -> T>(
    activation: F,
    layers: Seq<LayerView<T>>,
    inputs: Seq<T>,
    outputs: Seq<T>,
)
    requires
        layers.len() > 0,
        feeds_forward(activation, layers, inputs, outputs),
    ensures
        outputs.len() == layers.last().neurons.len(),
{
    let signal = lemma_feeds_forward_step(activation, layers, inputs, outputs);
}

/// A network rebuilt from its own chromosome is the network itself, so a
/// signal leaves the two alike.
pub proof fn lemma_rebuilt_network_feeds_forward_alike<T, F: Fn(&Neuron<T>, &[T]) -> T>(
    activation: F,
    layers: Seq<LayerView<T>>,
    inputs: Seq<T>,
    outputs: Seq<T>,
)
    requires
        network_wf(layers),
    ensures
        network_from(shape_of(layers), network_genes(layers)) == layers,
        feeds_forward(
            activation,
            network_from(shape_of(layers), network_genes(layers)),
            inputs,
            outputs,
        ) == feeds_forward(activation, layers, inputs, outputs),
{
    lemma_network_of_genes(layers);
}

} // verus!

//! A layered feedforward network over Q32.32 fixed-point numbers.
//!
//! A network is a sequence of layers; a layer a sequence of neurons; a
//! neuron a bias and one weight per input. A neuron outputs
//! `max(0, dot(inputs, weights) + bias)` in saturating fixed-point
//! arithmetic. The whole parameter set can be flattened into one gene
//! vector (layer-major, neuron-major, bias first, then the weights in
//! input order) and rebuilt from one, and the flattening is lossless.

use vstd::prelude::*;

use crate::fx::{fx_add, fx_mul, fx_mul_spec, sat64, FX_ONE};
use crate::rng::rand_below;

verus! {

use vstd::pervasive::unreached;

/// A structural failure of network construction or evaluation.
#[derive(Debug, Clone, Copy, PartialEq, Eq, Structural)]
pub enum NetworkError {
    /// Construction was asked for fewer than two layer sizes.
    InvalidTopology,
    /// A neuron received an input vector whose length differs from its
    /// weight count.
    DimensionMismatch,
    /// Decoding exhausted the weight sequence before the last neuron was
    /// fully populated.
    InsufficientWeights,
    /// Decoding left unconsumed values behind the last neuron.
    ExcessWeights,
}

/// One entry of a topology: the neuron count of one layer.
#[derive(Debug, Clone, Copy, PartialEq, Eq, Structural)]
pub struct LayerTopology {
    pub neurons: usize,
}

struct Neuron {
    bias: i64,
    weights: Vec<i64>,
}

struct Layer {
    neurons: Vec<Neuron>,
}

/// The mathematical image of one neuron: its bias and its weights.
pub type NeuronRep = (i64, Seq<i64>);

/// The mathematical image of a network: layers of neurons.
pub type NetworkRep = Seq<Seq<NeuronRep>>;

/// The layer sizes of a topology, as plain numbers.
pub open spec fn topo_view(topology: Seq<LayerTopology>) -> Seq<usize> {
    topology.map_values(|lt: LayerTopology| lt.neurons)
}

/// Well-formedness of a network image against a topology: one layer per
/// consecutive pair of sizes, each layer with `topo[k + 1]` neurons, each
/// of them with `topo[k]` weights.
pub open spec fn rep_wf(rep: NetworkRep, topo: Seq<usize>) -> bool {
    &&& topo.len() >= 2
    &&& rep.len() == topo.len() - 1
    &&& forall|k: int| 0 <= k < rep.len() ==> (#[trigger] rep[k]).len() == topo[k + 1]
    &&& forall|k: int, j: int|
        0 <= k < rep.len() && 0 <= j < rep[k].len() ==> (#[trigger] rep[k][j]).1.len() == topo[k]
}

/// The saturating dot product of the first `k` weight/input pairs.
pub open spec fn dot_sat(weights: Seq<i64>, inputs: Seq<i64>, k: int) -> int
    decreases k,
{
    if k <= 0 {
        0
    } else {
        sat64(dot_sat(weights, inputs, k - 1) + fx_mul_spec(inputs[k - 1] as int, weights[k - 1] as int))
    }
}

/// What one neuron outputs: the rectified saturating affine combination
/// of its inputs.
pub open spec fn neuron_out(bias: i64, weights: Seq<i64>, inputs: Seq<i64>) -> i64 {
    let raw = sat64(dot_sat(weights, inputs, weights.len() as int) + bias);
    if raw < 0 {
        0
    } else {
        raw as i64
    }
}

/// What one layer outputs: each neuron applied to the same inputs.
pub open spec fn layer_out(layer: Seq<NeuronRep>, inputs: Seq<i64>) -> Seq<i64> {
    Seq::new(layer.len(), |j: int| neuron_out(layer[j].0, layer[j].1, inputs))
}

/// The vector flowing out of the first `k` layers.
pub open spec fn run_layers(rep: NetworkRep, inputs: Seq<i64>, k: int) -> Seq<i64>
    decreases k,
{
    if k <= 0 {
        inputs
    } else {
        layer_out(rep[k - 1], run_layers(rep, inputs, k - 1))
    }
}

/// The flattened parameters of one neuron: bias first, then the weights
/// in input order.
pub open spec fn enc_neuron(nv: NeuronRep) -> Seq<i64> {
    seq![nv.0] + nv.1
}

/// The flattened parameters of a layer's neurons, in order.
pub open spec fn enc_neurons(ns: Seq<NeuronRep>) -> Seq<i64>
    decreases ns.len(),
{
    if ns.len() == 0 {
        Seq::empty()
    } else {
        enc_neurons(ns.drop_last()) + enc_neuron(ns.last())
    }
}

/// The flattened parameters of a whole network image, layer-major.
pub open spec fn enc_net(rep: NetworkRep) -> Seq<i64>
    decreases rep.len(),
{
    if rep.len() == 0 {
        Seq::empty()
    } else {
        enc_net(rep.drop_last()) + enc_neurons(rep.last())
    }
}

/// How many parameters a topology calls for.
pub open spec fn param_count(topo: Seq<usize>) -> int
    decreases topo.len(),
{
    if topo.len() < 2 {
        0
    } else {
        param_count(topo.drop_last()) + (topo.last() as int) * (1 + topo[topo.len() - 2] as int)
    }
}

/// A feedforward network, owning all its neurons.
pub struct Network {
    layers: Vec<Layer>,
    topology: Ghost<Seq<usize>>,
}

spec fn neuron_rep(n: Neuron) -> NeuronRep {
    (n.bias, n.weights@)
}

spec fn layer_rep(l: Layer) -> Seq<NeuronRep> {
    l.neurons@.map_values(|n: Neuron| neuron_rep(n))
}

impl Network {
    /// The mathematical image of the network.
    pub closed spec fn rep(&self) -> NetworkRep {
        self.layers@.map_values(|l: Layer| layer_rep(l))
    }

    /// The topology the network was built against.
    pub closed spec fn topo(&self) -> Seq<usize> {
        self.topology@
    }

    /// The network's shape agrees with its topology.
    pub open spec fn wf(&self) -> bool {
        rep_wf(self.rep(), self.topo())
    }

    /// The flattened parameter sequence.
    pub open spec fn encoding(&self) -> Seq<i64> {
        enc_net(self.rep())
    }

    /// What the network computes on an input vector.
    pub open spec fn out_spec(&self, inputs: Seq<i64>) -> Seq<i64> {
        run_layers(self.rep(), inputs, self.rep().len() as int)
    }
}

fn neuron_propagate(neuron: &Neuron, inputs: &Vec<i64>) -> (r: i64)
    requires
        inputs@.len() == neuron.weights@.len(),
    ensures
        r == neuron_out(neuron.bias, neuron.weights@, inputs@),
{
    let n = neuron.weights.len();
    let mut acc: i64 = 0;
    let mut j: usize = 0;
    while j < n
        invariant
            n == neuron.weights@.len() == inputs@.len(),
            j <= n,
            acc as int == dot_sat(neuron.weights@, inputs@, j as int),
        decreases n - j,
    {
        acc = fx_add(acc, fx_mul(inputs[j], neuron.weights[j]));
        j += 1;
    }
    let raw = fx_add(acc, neuron.bias);
    if raw < 0 {
        0
    } else {
        raw
    }
}

fn layer_propagate(layer: &Layer, inputs: &Vec<i64>) -> (r: Result<Vec<i64>, NetworkError>)
    ensures
        r is Ok <==> forall|j: int|
            0 <= j < layer_rep(*layer).len()
                ==> (#[trigger] layer_rep(*layer)[j]).1.len() == inputs@.len(),
        r is Err ==> r == Err::<Vec<i64>, NetworkError>(NetworkError::DimensionMismatch),
        r is Ok ==> r.unwrap()@ == layer_out(layer_rep(*layer), inputs@),
{
    let n = layer.neurons.len();
    let mut j: usize = 0;
    while j < n
        invariant
            n == layer.neurons@.len(),
            j <= n,
            forall|i: int| 0 <= i < j ==> (#[trigger] layer_rep(*layer)[i]).1.len() == inputs@.len(),
        decreases n - j,
    {
        if layer.neurons[j].weights.len() != inputs.len() {
            proof {
                assert(layer_rep(*layer)[j as int].1.len() != inputs@.len());
            }
            return Err(NetworkError::DimensionMismatch);
        }
        j += 1;
    }
    let mut out: Vec<i64> = Vec::new();
    let mut i: usize = 0;
    while i < n
        invariant
            n == layer.neurons@.len(),
            i <= n,
            out@.len() == i,
            forall|k: int| 0 <= k < n ==> (#[trigger] layer_rep(*layer)[k]).1.len() == inputs@.len(),
            forall|k: int| 0 <= k < i ==> out@[k] == layer_out(layer_rep(*layer), inputs@)[k],
        decreases n - i,
    {
        proof {
            assert(layer_rep(*layer)[i as int] == neuron_rep(layer.neurons@[i as int]));
        }
        let v = neuron_propagate(&layer.neurons[i], inputs);
        out.push(v);
        i += 1;
    }
    proof {
        assert(out@ =~= layer_out(layer_rep(*layer), inputs@));
    }
    Ok(out)
}

/// A gene or network parameter within the sampling interval `[-1.0, 1.0]`.
pub open spec fn gene_in_range(g: i64) -> bool {
    -FX_ONE <= g <= FX_ONE
}

/// Bias and every weight of a neuron image lie in `[-1.0, 1.0]`.
pub open spec fn neuron_in_range(nv: NeuronRep) -> bool {
    gene_in_range(nv.0) && forall|w: int| 0 <= w < nv.1.len() ==> gene_in_range(#[trigger] nv.1[w])
}

proof fn lemma_enc_neurons_range(ns: Seq<NeuronRep>)
    requires
        forall|j: int| 0 <= j < ns.len() ==> neuron_in_range(#[trigger] ns[j]),
    ensures
        forall|i: int| 0 <= i < enc_neurons(ns).len() ==> gene_in_range(
            #[trigger] enc_neurons(ns)[i],
        ),
    decreases ns.len(),
{
    if ns.len() == 0 {
    } else {
        assert(forall|j: int| 0 <= j < ns.len() - 1 ==> ns.drop_last()[j] == ns[j]);
        lemma_enc_neurons_range(ns.drop_last());
        let head = enc_neurons(ns.drop_last());
        let tail = enc_neuron(ns.last());
        assert(enc_neurons(ns) == head + tail);
        assert forall|i: int| 0 <= i < enc_neurons(ns).len() implies gene_in_range(
            #[trigger] enc_neurons(ns)[i],
        ) by {
            if i < head.len() {
                assert(enc_neurons(ns)[i] == head[i]);
            } else {
                assert(enc_neurons(ns)[i] == tail[i - head.len()]);
                if i - head.len() == 0 {
                    assert(tail[0] == ns.last().0);
                } else {
                    assert(tail[i - head.len()] == ns.last().1[i - head.len() - 1]);
                }
            }
        }
    }
}

proof fn lemma_enc_net_range(rep: NetworkRep)
    requires
        forall|k: int, j: int|
            0 <= k < rep.len() && 0 <= j < rep[k].len() ==> neuron_in_range(#[trigger] rep[k][j]),
    ensures
        forall|i: int| 0 <= i < enc_net(rep).len() ==> gene_in_range(#[trigger] enc_net(rep)[i]),
    decreases rep.len(),
{
    if rep.len() == 0 {
    } else {
        assert(forall|k: int| 0 <= k < rep.len() - 1 ==> rep.drop_last()[k] == rep[k]);
        lemma_enc_net_range(rep.drop_last());
        lemma_enc_neurons_range(rep.last());
        let head = enc_net(rep.drop_last());
        let tail = enc_neurons(rep.last());
        assert(enc_net(rep) == head + tail);
        assert forall|i: int| 0 <= i < enc_net(rep).len() implies gene_in_range(
            #[trigger] enc_net(rep)[i],
        ) by {
            if i < head.len() {
                assert(enc_net(rep)[i] == head[i]);
            } else {
                assert(enc_net(rep)[i] == tail[i - head.len()]);
            }
        }
    }
}

fn neuron_random(rng: &mut rand::rngs::StdRng, input_count: usize) -> (r: Neuron)
    ensures
        neuron_rep(r).1.len() == input_count,
        neuron_in_range(neuron_rep(r)),
{
    let bias = random_gene(rng);
    let mut weights: Vec<i64> = Vec::new();
    let mut j: usize = 0;
    while j < input_count
        invariant
            j <= input_count,
            weights@.len() == j,
            forall|k: int| 0 <= k < j ==> -FX_ONE <= #[trigger] weights@[k] <= FX_ONE,
        decreases input_count - j,
    {
        let w = random_gene(rng);
        weights.push(w);
        j += 1;
    }
    Neuron { bias, weights }
}

/// One parameter sampled uniformly from `[-1.0, 1.0]`, over every
/// representable Q32.32 value of that interval.
fn random_gene(rng: &mut rand::rngs::StdRng) -> (r: i64)
    ensures
        -FX_ONE <= r <= FX_ONE,
{
    let raw = rand_below(rng, 0x2_0000_0001);
    (raw as i64) - FX_ONE
}

fn layer_random(rng: &mut rand::rngs::StdRng, input_count: usize, neuron_count: usize) -> (r: Layer)
    ensures
        layer_rep(r).len() == neuron_count,
        forall|j: int| 0 <= j < neuron_count ==> (#[trigger] layer_rep(r)[j]).1.len() == input_count,
        forall|j: int| 0 <= j < neuron_count ==> neuron_in_range(#[trigger] layer_rep(r)[j]),
{
    let mut neurons: Vec<Neuron> = Vec::new();
    let mut j: usize = 0;
    while j < neuron_count
        invariant
            j <= neuron_count,
            neurons@.len() == j,
            forall|k: int| 0 <= k < j ==> (#[trigger] neuron_rep(neurons@[k])).1.len()
                == input_count,
            forall|k: int| 0 <= k < j ==> neuron_in_range(#[trigger] neuron_rep(neurons@[k])),
        decreases neuron_count - j,
    {
        let n = neuron_random(rng, input_count);
        neurons.push(n);
        j += 1;
    }
    let l = Layer { neurons };
    proof {
        assert forall|j: int| 0 <= j < neuron_count implies (#[trigger] layer_rep(l)[j]).1.len()
            == input_count && neuron_in_range(layer_rep(l)[j]) by {
            assert(layer_rep(l)[j] == neuron_rep(l.neurons@[j]));
        }
    }
    l
}

impl Network {
    /// Build a network of the given topology with every parameter sampled
    /// independently and uniformly from `[-1.0, 1.0]`. Fails exactly when
    /// fewer than two layer sizes are given.
    pub fn random(rng: &mut rand::rngs::StdRng, topology: &Vec<LayerTopology>) -> (r: Result<
        Network,
        NetworkError,
    >)
        ensures
            r is Ok <==> topology@.len() >= 2,
            r is Err ==> r == Err::<Network, NetworkError>(NetworkError::InvalidTopology),
            r is Ok ==> r.unwrap().wf() && r.unwrap().topo() == topo_view(topology@),
            r is Ok ==> forall|i: int| 0 <= i < r.unwrap().encoding().len() ==> gene_in_range(
                #[trigger] r.unwrap().encoding()[i],
            ),
    {
        if topology.len() < 2 {
            return Err(NetworkError::InvalidTopology);
        }
        let ghost topo = topo_view(topology@);
        let n = topology.len();
        let mut layers: Vec<Layer> = Vec::new();
        let mut k: usize = 1;
        while k < n
            invariant
                n == topology@.len(),
                2 <= n,
                1 <= k <= n,
                topo == topo_view(topology@),
                topo.len() == n,
                layers@.len() == k - 1,
                forall|i: int| 0 <= i < k - 1 ==> (#[trigger] layer_rep(layers@[i])).len() == topo[i
                    + 1],
                forall|i: int, j: int|
                    0 <= i < k - 1 && 0 <= j < layer_rep(layers@[i]).len() ==> (#[trigger] layer_rep(
                        layers@[i],
                    )[j]).1.len() == topo[i],
                forall|i: int, j: int|
                    0 <= i < k - 1 && 0 <= j < layer_rep(layers@[i]).len()
                        ==> neuron_in_range(#[trigger] layer_rep(layers@[i])[j]),
            decreases n - k,
        {
            let l = layer_random(rng, topology[k - 1].neurons, topology[k].neurons);
            layers.push(l);
            k += 1;
        }
        let net = Network { layers, topology: Ghost(topo) };
        proof {
            lemma_rep_wf_from_parts(&net, topo);
            assert forall|i: int, j: int|
                0 <= i < net.rep().len() && 0 <= j < net.rep()[i].len() implies neuron_in_range(
                #[trigger] net.rep()[i][j],
            ) by {
                assert(net.rep()[i] == layer_rep(net.layers@[i]));
            }
            lemma_enc_net_range(net.rep());
        }
        Ok(net)
    }

    /// Feed an input vector through each layer in order. Fails exactly
    /// when the first layer has a neuron whose weight count differs from
    /// the input length; later layers match by construction.
    pub fn propogate(&self, inputs: Vec<i64>) -> (r: Result<Vec<i64>, NetworkError>)
        requires
            self.wf(),
        ensures
            r is Ok <==> (self.rep()[0].len() == 0 || inputs@.len() == self.topo()[0]),
            r is Err ==> r == Err::<Vec<i64>, NetworkError>(NetworkError::DimensionMismatch),
            r is Ok ==> r.unwrap()@ == self.out_spec(inputs@)
                && r.unwrap()@.len() == self.topo().last(),
    {
        let n = self.layers.len();
        let ghost orig = inputs@;
        proof {
            assert(self.rep()[0] == layer_rep(self.layers@[0]));
        }
        let mut current = match layer_propagate(&self.layers[0], &inputs) {
            Ok(out) => out,
            Err(e) => {
                proof {
                    let lrep = layer_rep(self.layers@[0]);
                    assert(exists|j: int|
                        0 <= j < lrep.len() && (#[trigger] lrep[j]).1.len() != inputs@.len());
                    let j = choose|j: int|
                        0 <= j < lrep.len() && (#[trigger] lrep[j]).1.len() != inputs@.len();
                    assert(self.rep()[0][j].1.len() == self.topo()[0]);
                    assert(self.rep()[0].len() > 0);
                }
                return Err(e);
            },
        };
        proof {
            if self.rep()[0].len() > 0 {
                assert(self.rep()[0][0].1.len() == orig.len());
                assert(self.rep()[0][0].1.len() == self.topo()[0]);
            }
            assert(run_layers(self.rep(), orig, 0) == orig);
            assert(run_layers(self.rep(), orig, 1) == layer_out(
                self.rep()[0],
                run_layers(self.rep(), orig, 0),
            ));
            assert(current@ == run_layers(self.rep(), orig, 1));
        }
        let mut k: usize = 1;
        while k < n
            invariant
                self.wf(),
                n == self.rep().len(),
                1 <= k <= n,
                current@ == run_layers(self.rep(), orig, k as int),
                current@.len() == self.rep()[k - 1].len(),
            decreases n - k,
        {
            proof {
                assert(self.rep()[k as int] == layer_rep(self.layers@[k as int]));
            }
            let out = match layer_propagate(&self.layers[k], &current) {
                Ok(out) => out,
                Err(e) => {
                    proof {
                        assert(forall|j: int|
                            0 <= j < self.rep()[k as int].len()
                                ==> (#[trigger] self.rep()[k as int][j]).1.len()
                                == self.topo()[k as int]);
                        assert(current@.len() == self.rep()[k - 1].len());
                        assert(self.rep()[k - 1].len() == self.topo()[k as int]);
                    }
                    unreached()
                },
            };
            current = out;
            k += 1;
        }
        proof {
            assert(current@.len() == self.rep()[n - 1].len());
            assert(self.rep()[n - 1].len() == self.topo()[n as int]);
            assert(self.topo()[n as int] == self.topo().last());
        }
        Ok(current)
    }

    /// The flattened parameter sequence: layer-major, neuron-major, bias
    /// first, then each weight in input order.
    pub fn weights(&self) -> (r: Vec<i64>)
        ensures
            r@ == self.encoding(),
    {
        let mut flat: Vec<i64> = Vec::new();
        let nl = self.layers.len();
        let mut k: usize = 0;
        while k < nl
            invariant
                nl == self.rep().len(),
                k <= nl,
                flat@ == enc_net(self.rep().take(k as int)),
            decreases nl - k,
        {
            let layer = &self.layers[k];
            let nn = layer.neurons.len();
            let ghost lrep = layer_rep(*layer);
            proof {
                assert(self.rep()[k as int] == lrep);
            }
            let mut j: usize = 0;
            while j < nn
                invariant
                    nl == self.rep().len(),
                    k < nl,
                    lrep == layer_rep(*layer),
                    self.rep()[k as int] == lrep,
                    nn == lrep.len(),
                    j <= nn,
                    flat@ == enc_net(self.rep().take(k as int)) + enc_neurons(lrep.take(j as int)),
                decreases nn - j,
            {
                let neuron = &layer.neurons[j];
                let ghost before = flat@;
                flat.push(neuron.bias);
                let nw = neuron.weights.len();
                let mut w: usize = 0;
                while w < nw
                    invariant
                        nw == neuron.weights@.len(),
                        w <= nw,
                        flat@ == before + seq![neuron.bias] + neuron.weights@.take(w as int),
                    decreases nw - w,
                {
                    flat.push(neuron.weights[w]);
                    proof {
                        assert(neuron.weights@.take(w + 1) =~= neuron.weights@.take(w as int).push(
                            neuron.weights@[w as int],
                        ));
                        assert(flat@ =~= before + seq![neuron.bias] + neuron.weights@.take(w + 1));
                    }
                    w += 1;
                }
                proof {
                    assert(neuron.weights@.take(nw as int) =~= neuron.weights@);
                    assert(lrep[j as int] == neuron_rep(*neuron));
                    assert(enc_neuron(lrep[j as int]) =~= seq![neuron.bias] + neuron.weights@);
                    assert(lrep.take(j + 1).drop_last() =~= lrep.take(j as int));
                    assert(lrep.take(j + 1).last() == lrep[j as int]);
                    assert(enc_neurons(lrep.take(j + 1)) == enc_neurons(lrep.take(j as int))
                        + enc_neuron(lrep[j as int]));
                    assert(flat@ =~= enc_net(self.rep().take(k as int)) + enc_neurons(
                        lrep.take(j + 1),
                    ));
                }
                j += 1;
            }
            proof {
                assert(lrep.take(nn as int) =~= lrep);
                assert(self.rep().take(k + 1).drop_last() =~= self.rep().take(k as int));
                assert(self.rep().take(k + 1).last() == lrep);
                assert(enc_net(self.rep().take(k + 1)) == enc_net(self.rep().take(k as int))
                    + enc_neurons(lrep));
            }
            k += 1;
        }
        proof {
            assert(self.rep().take(nl as int) =~= self.rep());
        }
        flat
    }

    /// Rebuild a network of the given topology from a flat parameter
    /// sequence, consuming it in encoding order. Fails exactly when the
    /// topology is too short or the sequence length differs from what the
    /// topology calls for, and the rebuilt network re-encodes to exactly
    /// the given sequence.
    pub fn from_weights(topology: &Vec<LayerTopology>, weights: &Vec<i64>) -> (r: Result<
        Network,
        NetworkError,
    >)
        ensures
            r is Ok <==> topology@.len() >= 2 && weights@.len() == param_count(
                topo_view(topology@),
            ),
            topology@.len() < 2 ==> r == Err::<Network, NetworkError>(NetworkError::InvalidTopology),
            topology@.len() >= 2 && weights@.len() < param_count(topo_view(topology@)) ==> r
                == Err::<Network, NetworkError>(NetworkError::InsufficientWeights),
            topology@.len() >= 2 && weights@.len() > param_count(topo_view(topology@)) ==> r
                == Err::<Network, NetworkError>(NetworkError::ExcessWeights),
            r is Ok ==> r.unwrap().wf() && r.unwrap().topo() == topo_view(topology@)
                && r.unwrap().encoding() == weights@,
    {
        if topology.len() < 2 {
            return Err(NetworkError::InvalidTopology);
        }
        let ghost topo = topo_view(topology@);
        let n = topology.len();
        let mut layers: Vec<Layer> = Vec::new();
        let mut pos: usize = 0;
        let mut k: usize = 1;
        while k < n
            invariant
                n == topology@.len(),
                2 <= n,
                1 <= k <= n,
                topo == topo_view(topology@),
                topo.len() == n,
                pos <= weights@.len(),
                pos == param_count(topo.take(k as int)),
                layers@.len() == k - 1,
                forall|i: int| 0 <= i < k - 1 ==> (#[trigger] layer_rep(layers@[i])).len() == topo[i
                    + 1],
                forall|i: int, j: int|
                    0 <= i < k - 1 && 0 <= j < layer_rep(layers@[i]).len() ==> (#[trigger] layer_rep(
                        layers@[i],
                    )[j]).1.len() == topo[i],
                enc_net(layers@.map_values(|l: Layer| layer_rep(l))) == weights@.subrange(
                    0,
                    pos as int,
                ),
            decreases n - k,
        {
            let input_count = topology[k - 1].neurons;
            let neuron_count = topology[k].neurons;
            let ghost reps_before = layers@.map_values(|l: Layer| layer_rep(l));
            let mut neurons: Vec<Neuron> = Vec::new();
            let ghost layer_start = pos as int;
            let mut j: usize = 0;
            while j < neuron_count
                invariant
                    n == topology@.len(),
                    2 <= n,
                    1 <= k < n,
                    topo == topo_view(topology@),
                    topo.len() == n,
                    input_count == topo[k - 1],
                    neuron_count == topo[k as int],
                    layer_start == param_count(topo.take(k as int)),
                    j <= neuron_count,
                    pos <= weights@.len(),
                    pos == layer_start + j * (1 + input_count as int),
                    layer_start >= 0,
                    neurons@.len() == j,
                    forall|i: int| 0 <= i < j ==> (#[trigger] neuron_rep(neurons@[i])).1.len()
                        == input_count,
                    enc_neurons(neurons@.map_values(|nr: Neuron| neuron_rep(nr))) == weights@
                        .subrange(layer_start, pos as int),
                decreases neuron_count - j,
            {
                if weights.len() - pos <= input_count {
                    proof {
                        assert(weights@.len() < layer_start + (j + 1) * (1 + input_count as int))
                            by (nonlinear_arith)
                            requires
                                weights@.len() - pos <= input_count as int,
                                pos == layer_start + j * (1 + input_count as int),
                        ;
                        lemma_partial_layer_bound(
                            topo,
                            k as int,
                            j as int,
                            input_count as int,
                            neuron_count as int,
                            layer_start,
                        );
                    }
                    return Err(NetworkError::InsufficientWeights);
                }
                let bias = weights[pos];
                let ghost neuron_start = pos as int;
                pos = pos + 1;
                let mut ws: Vec<i64> = Vec::new();
                proof {
                    assert(ws@ =~= weights@.subrange(neuron_start + 1, pos as int));
                }
                let mut w: usize = 0;
                while w < input_count
                    invariant
                        w <= input_count,
                        pos == neuron_start + 1 + w,
                        pos <= weights@.len(),
                        weights@.len() <= usize::MAX,
                        neuron_start + 1 + input_count <= weights@.len(),
                        ws@ == weights@.subrange(neuron_start + 1, pos as int),
                        bias == weights@[neuron_start],
                        neuron_start >= 0,
                    decreases input_count - w,
                {
                    let x = weights[pos];
                    ws.push(x);
                    pos = pos + 1;
                    proof {
                        assert(ws@ =~= weights@.subrange(neuron_start + 1, pos as int));
                    }
                    w += 1;
                }
                let neuron = Neuron { bias, weights: ws };
                let ghost nreps_before = neurons@.map_values(|nr: Neuron| neuron_rep(nr));
                neurons.push(neuron);
                proof {
                    let nreps = neurons@.map_values(|nr: Neuron| neuron_rep(nr));
                    assert(nreps =~= nreps_before.push(neuron_rep(neuron)));
                    assert(nreps.drop_last() =~= nreps_before);
                    assert(enc_neuron(neuron_rep(neuron)) =~= weights@.subrange(
                        neuron_start,
                        pos as int,
                    ));
                    assert(enc_neurons(nreps) == enc_neurons(nreps_before) + enc_neuron(
                        neuron_rep(neuron),
                    ));
                    assert(enc_neurons(nreps) =~= weights@.subrange(layer_start, pos as int));
                    assert(pos == layer_start + (j + 1) * (1 + input_count as int))
                        by (nonlinear_arith)
                        requires
                            pos == neuron_start + 1 + input_count as int,
                            neuron_start == layer_start + j * (1 + input_count as int),
                    ;
                }
                j += 1;
            }
            let layer = Layer { neurons };
            layers.push(layer);
            proof {
                let reps = layers@.map_values(|l: Layer| layer_rep(l));
                assert(reps =~= reps_before.push(layer_rep(layer)));
                assert(reps.drop_last() =~= reps_before);
                assert(layer_rep(layer) =~= neurons_rep_of(layer));
                assert(enc_net(reps) == enc_net(reps_before) + enc_neurons(layer_rep(layer)));
                assert(enc_net(reps) =~= weights@.subrange(0, pos as int));
                assert(layer_rep(layer).len() == neuron_count);
                assert(pos == param_count(topo.take(k as int + 1))) by {
                    assert(topo.take(k as int + 1).drop_last() =~= topo.take(k as int));
                    assert(topo.take(k as int + 1).last() == topo[k as int]);
                    assert(topo.take(k as int + 1)[k as int - 1] == topo[k as int - 1]);
                    assert(param_count(topo.take(k as int + 1)) == param_count(
                        topo.take(k as int),
                    ) + (topo[k as int] as int) * (1 + topo[k as int - 1] as int));
                    assert(pos == layer_start + neuron_count * (1 + input_count as int));
                };
            }
            k += 1;
        }
        if pos != weights.len() {
            proof {
                assert(topo.take(n as int) =~= topo);
            }
            return Err(NetworkError::ExcessWeights);
        }
        let net = Network { layers, topology: Ghost(topo) };
        proof {
            assert(topo.take(n as int) =~= topo);
            lemma_rep_wf_from_parts(&net, topo);
            assert(net.encoding() =~= weights@.subrange(0, weights@.len() as int));
            assert(weights@.subrange(0, weights@.len() as int) =~= weights@);
        }
        Ok(net)
    }
}

spec fn neurons_rep_of(l: Layer) -> Seq<NeuronRep> {
    l.neurons@.map_values(|n: Neuron| neuron_rep(n))
}

/// Assemble well-formedness of a freshly built network from per-layer
/// facts.
proof fn lemma_rep_wf_from_parts(net: &Network, topo: Seq<usize>)
    requires
        net.topo() == topo,
        topo.len() >= 2,
        net.layers@.len() == topo.len() - 1,
        forall|i: int| 0 <= i < net.layers@.len() ==> (#[trigger] layer_rep(net.layers@[i])).len()
            == topo[i + 1],
        forall|i: int, j: int|
            0 <= i < net.layers@.len() && 0 <= j < layer_rep(net.layers@[i]).len()
                ==> (#[trigger] layer_rep(net.layers@[i])[j]).1.len() == topo[i],
    ensures
        net.wf(),
{
    assert(net.rep().len() == net.layers@.len());
    assert forall|k: int| 0 <= k < net.rep().len() implies (#[trigger] net.rep()[k]).len() == topo[k
        + 1] by {
        assert(net.rep()[k] == layer_rep(net.layers@[k]));
    }
    assert forall|k: int, j: int|
        0 <= k < net.rep().len() && 0 <= j < net.rep()[k].len() implies (#[trigger] net.rep()[k][j]).1.len()
        == topo[k] by {
        assert(net.rep()[k] == layer_rep(net.layers@[k]));
    }
}

/// Parameter counts only grow as a topology prefix is extended.
proof fn lemma_param_count_mono(topo: Seq<usize>, j: int, k: int)
    requires
        0 <= j <= k <= topo.len(),
    ensures
        param_count(topo.take(j)) <= param_count(topo.take(k)),
    decreases k - j,
{
    if j < k {
        lemma_param_count_mono(topo, j + 1, k);
        assert(topo.take(j + 1).drop_last() =~= topo.take(j));
        if j + 1 >= 2 {
            assert((topo.take(j + 1).last() as int) * (1 + topo.take(j + 1)[j - 1] as int) >= 0)
                by (nonlinear_arith);
        }
    }
}

proof fn lemma_dot_zero(weights: Seq<i64>, inputs: Seq<i64>, k: int)
    requires
        forall|j: int| 0 <= j < weights.len() ==> weights[j] == 0,
        k <= weights.len(),
    ensures
        dot_sat(weights, inputs, k) == 0,
    decreases k,
{
    if k > 0 {
        lemma_dot_zero(weights, inputs, k - 1);
    }
}

/// Law: a neuron with all-zero weights and zero bias outputs exactly 0,
/// whatever its inputs.
pub proof fn lemma_neuron_floor(weights: Seq<i64>, inputs: Seq<i64>)
    requires
        forall|j: int| 0 <= j < weights.len() ==> weights[j] == 0,
    ensures
        neuron_out(0, weights, inputs) == 0,
{
    lemma_dot_zero(weights, inputs, weights.len() as int);
}

/// Two concatenations are equal part by part once the suffix lengths
/// agree.
proof fn lemma_concat_split(s1: Seq<i64>, t1: Seq<i64>, s2: Seq<i64>, t2: Seq<i64>)
    requires
        s1 + t1 == s2 + t2,
        t1.len() == t2.len(),
    ensures
        s1 == s2,
        t1 == t2,
{
    assert((s1 + t1).len() == s1.len() + t1.len());
    assert((s2 + t2).len() == s2.len() + t2.len());
    assert(s1.len() == s2.len());
    assert forall|i: int| 0 <= i < s1.len() implies s1[i] == s2[i] by {
        assert((s1 + t1)[i] == s1[i]);
        assert((s2 + t2)[i] == s2[i]);
    }
    assert forall|i: int| 0 <= i < t1.len() implies t1[i] == t2[i] by {
        assert((s1 + t1)[s1.len() + i] == t1[i]);
        assert((s2 + t2)[s2.len() + i] == t2[i]);
    }
    assert(s1 =~= s2);
    assert(t1 =~= t2);
}

proof fn lemma_enc_neurons_len(ns: Seq<NeuronRep>, input_count: int)
    requires
        input_count >= 0,
        forall|j: int| 0 <= j < ns.len() ==> (#[trigger] ns[j]).1.len() == input_count,
    ensures
        enc_neurons(ns).len() == ns.len() * (1 + input_count),
    decreases ns.len(),
{
    if ns.len() == 0 {
    } else {
        lemma_enc_neurons_len(ns.drop_last(), input_count);
        assert(enc_neuron(ns.last()).len() == 1 + input_count);
        assert((ns.len() - 1) * (1 + input_count) + (1 + input_count) == ns.len() * (1
            + input_count)) by (nonlinear_arith);
    }
}

proof fn lemma_neurons_enc_inj(a: Seq<NeuronRep>, b: Seq<NeuronRep>, input_count: int)
    requires
        input_count >= 0,
        a.len() == b.len(),
        forall|j: int| 0 <= j < a.len() ==> (#[trigger] a[j]).1.len() == input_count,
        forall|j: int| 0 <= j < b.len() ==> (#[trigger] b[j]).1.len() == input_count,
        enc_neurons(a) == enc_neurons(b),
    ensures
        a == b,
    decreases a.len(),
{
    if a.len() == 0 {
        assert(a =~= b);
    } else {
        assert(enc_neurons(a) == enc_neurons(a.drop_last()) + enc_neuron(a.last()));
        assert(enc_neurons(b) == enc_neurons(b.drop_last()) + enc_neuron(b.last()));
        assert(enc_neuron(a.last()).len() == 1 + input_count);
        assert(enc_neuron(b.last()).len() == 1 + input_count);
        lemma_concat_split(
            enc_neurons(a.drop_last()),
            enc_neuron(a.last()),
            enc_neurons(b.drop_last()),
            enc_neuron(b.last()),
        );
        lemma_neurons_enc_inj(a.drop_last(), b.drop_last(), input_count);
        lemma_concat_split(
            seq![a.last().0],
            a.last().1,
            seq![b.last().0],
            b.last().1,
        );
        assert(a.last().0 == b.last().0) by {
            assert(seq![a.last().0][0] == a.last().0);
        }
        assert(a.last() == b.last());
        assert(a =~= b) by {
            assert(forall|i: int| 0 <= i < a.len() - 1 ==> a[i] == a.drop_last()[i]
                && b[i] == b.drop_last()[i]);
        }
    }
}

proof fn lemma_net_enc_inj(a: NetworkRep, b: NetworkRep, topo: Seq<usize>)
    requires
        topo.len() == a.len() + 1,
        a.len() == b.len(),
        forall|k: int| 0 <= k < a.len() ==> (#[trigger] a[k]).len() == topo[k + 1],
        forall|k: int| 0 <= k < b.len() ==> (#[trigger] b[k]).len() == topo[k + 1],
        forall|k: int, j: int|
            0 <= k < a.len() && 0 <= j < a[k].len() ==> (#[trigger] a[k][j]).1.len() == topo[k],
        forall|k: int, j: int|
            0 <= k < b.len() && 0 <= j < b[k].len() ==> (#[trigger] b[k][j]).1.len() == topo[k],
        enc_net(a) == enc_net(b),
    ensures
        a == b,
    decreases a.len(),
{
    if a.len() == 0 {
        assert(a =~= b);
    } else {
        let n = a.len() as int;
        assert(enc_net(a) == enc_net(a.drop_last()) + enc_neurons(a.last()));
        assert(enc_net(b) == enc_net(b.drop_last()) + enc_neurons(b.last()));
        lemma_enc_neurons_len(a.last(), topo[n - 1] as int);
        lemma_enc_neurons_len(b.last(), topo[n - 1] as int);
        lemma_concat_split(
            enc_net(a.drop_last()),
            enc_neurons(a.last()),
            enc_net(b.drop_last()),
            enc_neurons(b.last()),
        );
        lemma_neurons_enc_inj(a.last(), b.last(), topo[n - 1] as int);
        assert(forall|k: int| 0 <= k < n - 1 ==> a.drop_last()[k] == a[k]
            && b.drop_last()[k] == b[k]);
        lemma_net_enc_inj(a.drop_last(), b.drop_last(), topo.drop_last());
        assert(a =~= b);
    }
}

proof fn lemma_enc_net_len(rep: NetworkRep, topo: Seq<usize>)
    requires
        topo.len() == rep.len() + 1,
        forall|k: int| 0 <= k < rep.len() ==> (#[trigger] rep[k]).len() == topo[k + 1],
        forall|k: int, j: int|
            0 <= k < rep.len() && 0 <= j < rep[k].len() ==> (#[trigger] rep[k][j]).1.len()
                == topo[k],
    ensures
        enc_net(rep).len() == param_count(topo),
    decreases rep.len(),
{
    if rep.len() == 0 {
    } else {
        let n = rep.len() as int;
        assert(enc_net(rep) == enc_net(rep.drop_last()) + enc_neurons(rep.last()));
        lemma_enc_neurons_len(rep.last(), topo[n - 1] as int);
        assert(forall|k: int| 0 <= k < n - 1 ==> rep.drop_last()[k] == rep[k]);
        lemma_enc_net_len(rep.drop_last(), topo.drop_last());
        assert(topo.drop_last() == topo.take(topo.len() - 1));
        assert(param_count(topo) == param_count(topo.drop_last()) + (topo.last() as int) * (1
            + topo[topo.len() - 2] as int));
    }
}

/// A well-formed network's flattened encoding has exactly as many values
/// as its topology calls for.
pub proof fn lemma_encoding_len(net: &Network)
    requires
        net.wf(),
    ensures
        net.encoding().len() == param_count(net.topo()),
{
    lemma_enc_net_len(net.rep(), net.topo());
}

/// Law: flattening is lossless. Two well-formed networks of the same
/// topology with the same encoding are structurally identical and compute
/// the same outputs; in particular, decoding the flattened weights of a
/// network against its own topology reproduces it exactly.
pub proof fn lemma_round_trip(a: &Network, b: &Network)
    requires
        a.wf(),
        b.wf(),
        a.topo() == b.topo(),
        a.encoding() == b.encoding(),
    ensures
        a.rep() == b.rep(),
        forall|ins: Seq<i64>| #[trigger] a.out_spec(ins) == b.out_spec(ins),
{
    lemma_net_enc_inj(a.rep(), b.rep(), a.topo());
}

/// If decoding runs dry inside layer `k` (0-based pair `k - 1 .. k`), the
/// sequence is shorter than the whole topology calls for.
proof fn lemma_partial_layer_bound(
    topo: Seq<usize>,
    k: int,
    j: int,
    input_count: int,
    neuron_count: int,
    layer_start: int,
)
    requires
        2 <= topo.len(),
        1 <= k < topo.len(),
        0 <= j < neuron_count,
        input_count == topo[k - 1] as int,
        neuron_count == topo[k] as int,
        layer_start == param_count(topo.take(k)),
    ensures
        layer_start + (j + 1) * (1 + input_count) <= param_count(topo),
{
    assert(topo.take(k + 1).drop_last() =~= topo.take(k));
    assert(topo.take(k + 1).last() == topo[k]);
    assert(topo.take(k + 1)[k - 1] == topo[k - 1]);
    assert(param_count(topo.take(k + 1)) == param_count(topo.take(k)) + neuron_count * (1
        + input_count));
    assert((j + 1) * (1 + input_count) <= neuron_count * (1 + input_count)) by (nonlinear_arith)
        requires
            0 <= j < neuron_count,
            input_count >= 0,
    ;
    lemma_param_count_mono(topo, k + 1, topo.len() as int);
    assert(topo.take(topo.len() as int) =~= topo);
}

} // verus!

use vstd::prelude::*;

verus! {

/// The size of one layer of a network: how many neurons it has.
pub struct LayerTopology {
    pub neurons: usize,
}

/// The layer sizes of a topology, in order.
pub open spec fn sizes(topology: Seq<LayerTopology>) -> Seq<usize> {
    topology.map_values(|l: LayerTopology| l.neurons)
}

/// How many parameters (weights and biases) a network of these layer sizes
/// has: each neuron has one weight per neuron of the layer before, and a bias.
pub open spec fn gene_count(sizes: Seq<usize>) -> nat
    decreases sizes.len(),
{
    if sizes.len() < 2 {
        0
    } else {
        gene_count(sizes.drop_last()) + sizes.last() as nat * (sizes[sizes.len() - 2] + 1) as nat
    }
}

/// One neuron: a weight for each input and a bias.
pub struct Neuron<W> {
    pub bias: W,
    pub weights: Vec<W>,
}

impl<W> Neuron<W> {
    /// The neuron's parameters in chromosome order: the weights in input
    /// order, then the bias.
    pub open spec fn genes(&self) -> Seq<W> {
        self.weights@.push(self.bias)
    }

    /// The neuron's parameters in the order random initialisation draws
    /// them: the bias, then the weights in input order.
    pub open spec fn draws(&self) -> Seq<W> {
        seq![self.bias] + self.weights@
    }

    /// The parameters in draw order (`bias_first`) or chromosome order.
    pub open spec fn encode(&self, bias_first: bool) -> Seq<W> {
        if bias_first {
            self.draws()
        } else {
            self.genes()
        }
    }
}

impl<W: Copy> Neuron<W> {
    /// Builds a neuron with `inputs` weights from the genes that start at
    /// `start`.
    fn build(genes: &Vec<W>, start: usize, inputs: usize, bias_first: bool) -> (r: Self)
        requires
            start + inputs + 1 <= genes@.len(),
        ensures
            r.weights@.len() == inputs,
            r.encode(bias_first) == genes@.subrange(start as int, start + inputs + 1),
    {
        let len = genes.len();
        let first = if bias_first {
            start + 1
        } else {
            start
        };
        let mut weights: Vec<W> = Vec::new();
        let mut k: usize = 0;
        while k < inputs
            invariant
                k <= inputs,
                first == start + if bias_first {
                    1int
                } else {
                    0int
                },
                start + inputs + 1 <= genes@.len(),
                len == genes@.len(),
                weights@ == genes@.subrange(first as int, first + k),
            decreases inputs - k,
        {
            weights.push(genes[first + k]);
            k = k + 1;
            assert(weights@ =~= genes@.subrange(first as int, first + k));
        }
        let bias = if bias_first {
            genes[start]
        } else {
            genes[start + inputs]
        };
        let r = Neuron { bias, weights };
        assert(r.encode(bias_first) =~= genes@.subrange(start as int, start + inputs + 1));
        r
    }
}

/// The parameters of each of the neurons, in order.
pub open spec fn encode_neurons<W>(neurons: Seq<Neuron<W>>, bias_first: bool) -> Seq<Seq<W>> {
    neurons.map_values(|n: Neuron<W>| n.encode(bias_first))
}

/// One layer: its neurons, in order.
pub struct Layer<W> {
    pub neurons: Vec<Neuron<W>>,
}

impl<W> Layer<W> {
    /// Whether the layer maps `inputs` values to `outputs` values.
    pub open spec fn fits(&self, inputs: nat, outputs: nat) -> bool {
        &&& self.neurons@.len() == outputs
        &&& forall|i: int|
            0 <= i < self.neurons@.len() ==> (#[trigger] self.neurons@[i]).weights@.len() == inputs
    }

    /// The parameters of each neuron, in order.
    pub open spec fn neuron_genes(&self, bias_first: bool) -> Seq<Seq<W>> {
        encode_neurons(self.neurons@, bias_first)
    }

    /// The parameters of all neurons, one neuron after the other.
    pub open spec fn encode(&self, bias_first: bool) -> Seq<W> {
        self.neuron_genes(bias_first).flatten()
    }

    /// Builds a layer of `outputs` neurons with `inputs` weights each from
    /// the genes that start at `start`.
    fn build(genes: &Vec<W>, start: usize, inputs: usize, outputs: usize, bias_first: bool) -> (r:
        Self)
        where
            W: Copy,
        requires
            start + outputs * (inputs + 1) <= genes@.len(),
        ensures
            r.fits(inputs as nat, outputs as nat),
            r.encode(bias_first) == genes@.subrange(
                start as int,
                start + outputs * (inputs + 1),
            ),
    {
        let len = genes.len();
        let mut neurons: Vec<Neuron<W>> = Vec::new();
        let mut offset: usize = start;
        let mut k: usize = 0;
        while k < outputs
            invariant
                k <= outputs,
                start + outputs * (inputs + 1) <= genes@.len(),
                len == genes@.len(),
                offset == start + k * (inputs + 1),
                offset <= genes@.len(),
                neurons@.len() == k,
                forall|j: int| 0 <= j < k ==> (#[trigger] neurons@[j]).weights@.len() == inputs,
                encode_neurons(neurons@, bias_first).flatten() == genes@.subrange(
                    start as int,
                    offset as int,
                ),
            decreases outputs - k,
        {
            assert(offset + inputs + 1 <= start + outputs * (inputs + 1)) by (nonlinear_arith)
                requires
                    offset == start + k * (inputs + 1),
                    k < outputs,
            ;
            assert(offset + inputs + 1 <= len);
            let neuron = Neuron::build(genes, offset, inputs, bias_first);
            proof {
                let e = neuron.encode(bias_first);
                assert(encode_neurons(neurons@.push(neuron), bias_first) =~= encode_neurons(
                    neurons@,
                    bias_first,
                ).push(e));
                encode_neurons(neurons@, bias_first).lemma_flatten_push(e);
                assert(genes@.subrange(start as int, offset as int) + e =~= genes@.subrange(
                    start as int,
                    offset + inputs + 1,
                ));
                assert(offset + inputs + 1 == start + (k + 1) * (inputs + 1)) by (nonlinear_arith)
                    requires
                        offset == start + k * (inputs + 1),
                ;
            }
            neurons.push(neuron);
            offset = offset + inputs + 1;
            k = k + 1;
        }
        Layer { neurons }
    }
}

/// The parameters of each of the layers, in order.
pub open spec fn encode_layers<W>(layers: Seq<Layer<W>>, bias_first: bool) -> Seq<Seq<W>> {
    layers.map_values(|l: Layer<W>| l.encode(bias_first))
}

/// A feed-forward network: a sequence of layers, each one fed by the one
/// before it.
pub struct Network<W> {
    layers: Vec<Layer<W>>,
}

impl<W> View for Network<W> {
    /// For each layer, for each neuron, its weights followed by its bias.
    type V = Seq<Seq<Seq<W>>>;

    open spec fn view(&self) -> Seq<Seq<Seq<W>>> {
        self.layers_view().map_values(|l: Layer<W>| l.neuron_genes(false))
    }
}

impl<W> Network<W> {
    /// Whether the network has the layer sizes `sizes`: one layer per
    /// adjacent pair of sizes.
    pub open spec fn fits(&self, sizes: Seq<usize>) -> bool {
        &&& self.layers_view().len() + 1 == sizes.len()
        &&& forall|i: int|
            0 <= i < self.layers_view().len() ==> (#[trigger] self.layers_view()[i]).fits(
                sizes[i] as nat,
                sizes[i + 1] as nat,
            )
    }

    /// The parameters of all layers, one layer after the other.
    pub open spec fn encode(&self, bias_first: bool) -> Seq<W> {
        encode_layers(self.layers_view(), bias_first).flatten()
    }

    /// The network's parameters in chromosome order: layer by layer, neuron
    /// by neuron, the weights in input order and then the bias.
    pub open spec fn genes(&self) -> Seq<W> {
        self.encode(false)
    }

    /// The network's parameters in the order random initialisation draws
    /// them: layer by layer, neuron by neuron, the bias and then the weights.
    pub open spec fn draws(&self) -> Seq<W> {
        self.encode(true)
    }

    /// Builds the network of layer sizes `topology` from `genes`, read in
    /// chromosome order (`bias_first` false) or in draw order (true).
    fn build(topology: &[LayerTopology], genes: &Vec<W>, bias_first: bool) -> (r: Self)
        where
            W: Copy,
        requires
            topology@.len() >= 2,
            genes@.len() == gene_count(sizes(topology@)),
        ensures
            r.fits(sizes(topology@)),
            r.encode(bias_first) == genes@,
    {
        let ghost s = sizes(topology@);
        let len = genes.len();
        let mut layers: Vec<Layer<W>> = Vec::new();
        let mut offset: usize = 0;
        let mut i: usize = 1;
        while i < topology.len()
            invariant
                1 <= i <= topology@.len(),
                s == sizes(topology@),
                genes@.len() == gene_count(s),
                len == genes@.len(),
                offset <= len,
                layers@.len() + 1 == i,
                offset == gene_count(s.subrange(0, i as int)),
                forall|j: int|
                    0 <= j < layers@.len() ==> (#[trigger] layers@[j]).fits(
                        s[j] as nat,
                        s[j + 1] as nat,
                    ),
                encode_layers(layers@, bias_first).flatten() == genes@.subrange(0, offset as int),
            decreases topology@.len() - i,
        {
            let inputs = topology[i - 1].neurons;
            let outputs = topology[i].neurons;
            proof {
                assert(s.subrange(0, i + 1).drop_last() =~= s.subrange(0, i as int));
                assert(s[i as int] == outputs && s[i - 1] == inputs);
                lemma_gene_count_prefix(s, i + 1);
                assert(offset + outputs * (inputs + 1) == gene_count(s.subrange(0, i + 1)));
            }
            let layer = Layer::build(genes, offset, inputs, outputs, bias_first);
            proof {
                let e = layer.encode(bias_first);
                assert(encode_layers(layers@.push(layer), bias_first) =~= encode_layers(
                    layers@,
                    bias_first,
                ).push(e));
                encode_layers(layers@, bias_first).lemma_flatten_push(e);
                assert(genes@.subrange(0, offset as int) + e =~= genes@.subrange(
                    0,
                    offset + outputs * (inputs + 1),
                ));
            }
            layers.push(layer);
            if outputs > 0 {
                assert(inputs + 1 <= outputs * (inputs + 1)) by (nonlinear_arith)
                    requires
                        outputs > 0,
                ;
                offset = offset + outputs * (inputs + 1);
            }
            i = i + 1;
        }
        proof {
            assert(s.subrange(0, i as int) =~= s);
            assert(genes@.subrange(0, offset as int) =~= genes@);
        }
        Network { layers }
    }

    /// How many parameters a network of layer sizes `topology` has, or
    /// `None` when that number does not fit in a `usize`.
    pub fn gene_count(topology: &[LayerTopology]) -> (r: Option<usize>)
        ensures
            match r {
                Some(n) => n == gene_count(sizes(topology@)),
                None => gene_count(sizes(topology@)) > usize::MAX,
            },
    {
        let ghost s = sizes(topology@);
        if topology.len() < 2 {
            return Some(0);
        }
        let mut count: usize = 0;
        let mut i: usize = 1;
        while i < topology.len()
            invariant
                1 <= i <= topology@.len(),
                s == sizes(topology@),
                count == gene_count(s.subrange(0, i as int)),
            decreases topology@.len() - i,
        {
            let inputs = topology[i - 1].neurons;
            let outputs = topology[i].neurons;
            proof {
                assert(s.subrange(0, i + 1).drop_last() =~= s.subrange(0, i as int));
                assert(s[i as int] == outputs && s[i - 1] == inputs);
                lemma_gene_count_prefix(s, i + 1);
                assert(gene_count(s.subrange(0, i + 1)) == count + outputs * (inputs + 1));
            }
            let mut layer: usize = 0;
            if outputs > 0 {
                if inputs == usize::MAX {
                    assert(outputs * (inputs + 1) > usize::MAX) by (nonlinear_arith)
                        requires
                            outputs > 0,
                            inputs == usize::MAX,
                    ;
                    return None;
                }
                match outputs.checked_mul(inputs + 1) {
                    Some(n) => {
                        layer = n;
                    },
                    None => {
                        return None;
                    },
                }
            }
            assert(layer == outputs * (inputs + 1)) by (nonlinear_arith)
                requires
                    outputs == 0 ==> layer == 0,
                    outputs > 0 ==> layer == outputs * (inputs + 1),
            ;
            match count.checked_add(layer) {
                Some(c) => {
                    count = c;
                },
                None => {
                    return None;
                },
            }
            i = i + 1;
        }
        assert(s.subrange(0, i as int) =~= s);
        Some(count)
    }

    /// The network of layer sizes `topology` whose parameters, in chromosome
    /// order, are `weights`.
    pub fn from_weights(topology: &[LayerTopology], weights: &Vec<W>) -> (r: Self)
        where
            W: Copy,
        requires
            topology@.len() >= 2,
            weights@.len() == gene_count(sizes(topology@)),
        ensures
            r.fits(sizes(topology@)),
            r.genes() == weights@,
    {
        Self::build(topology, weights, false)
    }

    /// The network of layer sizes `topology` whose parameters, in the order
    /// random initialisation draws them, are `draws`.
    pub fn from_draws(topology: &[LayerTopology], draws: &Vec<W>) -> (r: Self)
        where
            W: Copy,
        requires
            topology@.len() >= 2,
            draws@.len() == gene_count(sizes(topology@)),
        ensures
            r.fits(sizes(topology@)),
            r.draws() == draws@,
    {
        Self::build(topology, draws, true)
    }

    /// The network's parameters in chromosome order.
    pub fn weights(&self) -> (r: Vec<W>)
        where
            W: Copy,
        ensures
            r@ == self.genes(),
    {
        let mut out: Vec<W> = Vec::new();
        let mut i: usize = 0;
        while i < self.layers.len()
            invariant
                i <= self.layers@.len(),
                out@ == encode_layers(self.layers@.subrange(0, i as int), false).flatten(),
            decreases self.layers@.len() - i,
        {
            let layer = &self.layers[i];
            let mut k: usize = 0;
            let ghost before = out@;
            while k < layer.neurons.len()
                invariant
                    k <= layer.neurons@.len(),
                    out@ == before + encode_neurons(layer.neurons@.subrange(0, k as int), false).flatten(),
                decreases layer.neurons@.len() - k,
            {
                let neuron = &layer.neurons[k];
                let ghost mid = out@;
                let mut j: usize = 0;
                while j < neuron.weights.len()
                    invariant
                        j <= neuron.weights@.len(),
                        out@ == mid + neuron.weights@.subrange(0, j as int),
                    decreases neuron.weights@.len() - j,
                {
                    out.push(neuron.weights[j]);
                    j = j + 1;
                    assert(out@ =~= mid + neuron.weights@.subrange(0, j as int));
                }
                out.push(neuron.bias);
                proof {
                    let pre = layer.neurons@.subrange(0, k as int);
                    assert(layer.neurons@.subrange(0, k + 1) =~= pre.push(*neuron));
                    assert(encode_neurons(pre.push(*neuron), false) =~= encode_neurons(pre, false).push(
                        neuron.genes(),
                    ));
                    encode_neurons(pre, false).lemma_flatten_push(neuron.genes());
                    assert(out@ =~= before + encode_neurons(layer.neurons@.subrange(0, k + 1), false).flatten());
                }
                k = k + 1;
            }
            proof {
                let pre = self.layers@.subrange(0, i as int);
                assert(layer.neurons@.subrange(0, k as int) =~= layer.neurons@);
                assert(self.layers@.subrange(0, i + 1) =~= pre.push(*layer));
                assert(encode_layers(pre.push(*layer), false) =~= encode_layers(pre, false).push(
                    layer.encode(false),
                ));
                encode_layers(pre, false).lemma_flatten_push(layer.encode(false));
            }
            i = i + 1;
        }
        assert(self.layers@.subrange(0, i as int) =~= self.layers@);
        out
    }

    /// The layers, first to last.
    pub closed spec fn layers_view(&self) -> Seq<Layer<W>> {
        self.layers@
    }

    /// The layers, for evaluating the network.
    pub fn layers(&self) -> (r: &Vec<Layer<W>>)
        ensures
            r@ == self.layers_view(),
    {
        &self.layers
    }
}


/// Round trip: a network is determined by its layer sizes and its
/// parameters in chromosome order. So the network rebuilt from a network's
/// own weights against its own topology is that network, neuron for neuron,
/// and evaluates exactly as it does.
pub proof fn lemma_weights_round_trip<W>(
    network: Network<W>,
    rebuilt: Network<W>,
    sizes: Seq<usize>,
)
    requires
        network.fits(sizes),
        rebuilt.fits(sizes),
        rebuilt.genes() == network.genes(),
    ensures
        rebuilt@ == network@,
{
    let (x, y) = (network.layers@, rebuilt.layers@);
    let (ex, ey) = (encode_layers(x, false), encode_layers(y, false));
    assert forall|i: int| 0 <= i < ex.len() implies (#[trigger] ex[i]).len() == ey[i].len() by {
        assert(x[i].fits(sizes[i] as nat, sizes[i + 1] as nat));
        assert(y[i].fits(sizes[i] as nat, sizes[i + 1] as nat));
        lemma_layer_encode_len(x[i], sizes[i] as nat, sizes[i + 1] as nat, false);
        lemma_layer_encode_len(y[i], sizes[i] as nat, sizes[i + 1] as nat, false);
    }
    lemma_flatten_injective(ex, ey);
    assert forall|i: int| 0 <= i < x.len() implies #[trigger] x[i].neuron_genes(false) == y[
        i
    ].neuron_genes(false) by {
        assert(ex[i] == ey[i]);
        let (nx, ny) = (x[i].neuron_genes(false), y[i].neuron_genes(false));
        assert(x[i].fits(sizes[i] as nat, sizes[i + 1] as nat));
        assert(y[i].fits(sizes[i] as nat, sizes[i + 1] as nat));
        assert forall|j: int| 0 <= j < nx.len() implies (#[trigger] nx[j]).len() == ny[j].len() by {
            assert(x[i].neurons@[j].weights@.len() == sizes[i]);
            assert(y[i].neurons@[j].weights@.len() == sizes[i]);
        }
        lemma_flatten_injective(nx, ny);
    }
    assert(rebuilt@ =~= network@);
}

/// A network of layer sizes `sizes` has `gene_count(sizes)` parameters, in
/// either order.
pub proof fn lemma_gene_count<W>(network: Network<W>, sizes: Seq<usize>)
    requires
        network.fits(sizes),
    ensures
        network.genes().len() == gene_count(sizes),
        network.draws().len() == gene_count(sizes),
{
    lemma_layers_gene_count(network.layers_view(), sizes, false);
    lemma_layers_gene_count(network.layers_view(), sizes, true);
}

proof fn lemma_layers_gene_count<W>(layers: Seq<Layer<W>>, sizes: Seq<usize>, bias_first: bool)
    requires
        layers.len() + 1 == sizes.len(),
        forall|i: int|
            0 <= i < layers.len() ==> (#[trigger] layers[i]).fits(sizes[i] as nat, sizes[i + 1] as nat),
    ensures
        encode_layers(layers, bias_first).flatten().len() == gene_count(sizes),
    decreases layers.len(),
{
    if layers.len() == 0 {
        assert(encode_layers(layers, bias_first) =~= Seq::<Seq<W>>::empty());
    } else {
        let n = layers.len() - 1;
        let init = layers.drop_last();
        assert forall|i: int| 0 <= i < init.len() implies (#[trigger] init[i]).fits(
            sizes.drop_last()[i] as nat,
            sizes.drop_last()[i + 1] as nat,
        ) by {
            assert(layers[i].fits(sizes[i] as nat, sizes[i + 1] as nat));
        }
        lemma_layers_gene_count(init, sizes.drop_last(), bias_first);
        assert(layers[n].fits(sizes[n] as nat, sizes[n + 1] as nat));
        lemma_layer_encode_len(layers[n], sizes[n] as nat, sizes[n + 1] as nat, bias_first);
        let last = layers[n].encode(bias_first);
        assert(encode_layers(layers, bias_first) =~= encode_layers(init, bias_first).push(last));
        encode_layers(init, bias_first).lemma_flatten_push(last);
    }
}

/// The parameter count of a prefix of the layer sizes is at most that of all
/// of them.
proof fn lemma_gene_count_prefix(s: Seq<usize>, i: int)
    requires
        0 <= i <= s.len(),
    ensures
        gene_count(s.subrange(0, i)) <= gene_count(s),
    decreases s.len() - i,
{
    if i < s.len() {
        lemma_gene_count_prefix(s, i + 1);
        assert(s.subrange(0, i + 1).drop_last() =~= s.subrange(0, i));
    } else {
        assert(s.subrange(0, i) =~= s);
    }
}

/// A layer's parameters, in either order, number one more than its inputs
/// for each neuron.
proof fn lemma_layer_encode_len<W>(layer: Layer<W>, inputs: nat, outputs: nat, bias_first: bool)
    requires
        layer.fits(inputs, outputs),
    ensures
        layer.encode(bias_first).len() == outputs * (inputs + 1),
{
    lemma_layer_prefix_len(layer.neurons@, inputs, bias_first);
}

proof fn lemma_layer_prefix_len<W>(neurons: Seq<Neuron<W>>, inputs: nat, bias_first: bool)
    requires
        forall|i: int| 0 <= i < neurons.len() ==> (#[trigger] neurons[i]).weights@.len() == inputs,
    ensures
        encode_neurons(neurons, bias_first).flatten().len() == neurons.len() * (inputs + 1),
    decreases neurons.len(),
{
    if neurons.len() == 0 {
        assert(encode_neurons(neurons, bias_first) =~= Seq::<Seq<W>>::empty());
    } else {
        let init = neurons.drop_last();
        lemma_layer_prefix_len(init, inputs, bias_first);
        let last = neurons.last().encode(bias_first);
        assert(neurons[neurons.len() - 1].weights@.len() == inputs);
        assert(last.len() == inputs + 1);
        assert(encode_neurons(neurons, bias_first) =~= encode_neurons(init, bias_first).push(last));
        encode_neurons(init, bias_first).lemma_flatten_push(last);
        assert(neurons.len() * (inputs + 1) == init.len() * (inputs + 1) + (inputs + 1))
            by (nonlinear_arith)
            requires
                init.len() + 1 == neurons.len(),
        ;
    }
}

/// Sequences of sequences whose members have pairwise equal lengths are
/// equal when their concatenations are.
proof fn lemma_flatten_injective<A>(x: Seq<Seq<A>>, y: Seq<Seq<A>>)
    requires
        x.len() == y.len(),
        forall|i: int| 0 <= i < x.len() ==> (#[trigger] x[i]).len() == y[i].len(),
        x.flatten() == y.flatten(),
    ensures
        x == y,
    decreases x.len(),
{
    if x.len() > 0 {
        let (xi, yi) = (x.drop_last(), y.drop_last());
        assert(x =~= xi.push(x.last()));
        assert(y =~= yi.push(y.last()));
        xi.lemma_flatten_push(x.last());
        yi.lemma_flatten_push(y.last());
        lemma_flatten_len_pairwise(xi, yi);
        let n = xi.flatten().len() as int;
        assert(xi.flatten() =~= x.flatten().subrange(0, n));
        assert(yi.flatten() =~= y.flatten().subrange(0, n));
        assert(x.last() =~= x.flatten().subrange(n, x.flatten().len() as int));
        assert(y.last() =~= y.flatten().subrange(n, y.flatten().len() as int));
        assert forall|i: int| 0 <= i < xi.len() implies (#[trigger] xi[i]).len() == yi[i].len() by {
            assert(xi[i] == x[i]);
            assert(yi[i] == y[i]);
        }
        lemma_flatten_injective(xi, yi);
    }
}

proof fn lemma_flatten_len_pairwise<A>(x: Seq<Seq<A>>, y: Seq<Seq<A>>)
    requires
        x.len() == y.len(),
        forall|i: int| 0 <= i < x.len() ==> (#[trigger] x[i]).len() == y[i].len(),
    ensures
        x.flatten().len() == y.flatten().len(),
    decreases x.len(),
{
    if x.len() > 0 {
        let (xi, yi) = (x.drop_last(), y.drop_last());
        assert(x =~= xi.push(x.last()));
        assert(y =~= yi.push(y.last()));
        xi.lemma_flatten_push(x.last());
        yi.lemma_flatten_push(y.last());
        assert forall|i: int| 0 <= i < xi.len() implies (#[trigger] xi[i]).len() == yi[i].len() by {
            assert(xi[i] == x[i]);
            assert(yi[i] == y[i]);
        }
        lemma_flatten_len_pairwise(xi, yi);
    }
}

} // verus!

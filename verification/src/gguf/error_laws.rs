//! How failures to load the model read.

use vstd::prelude::*;

use crate::gguf::context::Context;
use crate::gguf::layout::{
    backbone_slots, codebook_slots, codec_group_slots, codec_groups_slots, codec_layer_context,
    codec_layer_prefix, codec_layer_slots, codec_slots, fm_projection_slots, fm_slots,
    input_conv_slot, output_conv_slot, upsample_slots, Tower,
};
use crate::gguf::loader::{lemma_all_load_both, lemma_loads_within, within, LoadError, Slot};
use crate::gguf::messages::law_context_reads_first;
use crate::gguf::names::decimal;
use crate::gguf::reader::GgufFile;
use crate::tts::config::{CodecDecoderConfig, FmTransformerConfig, TtsBackboneConfig};

verus! {

/// A failure names the first tensor that does not load, and reads as the widest part of
/// the model that the tensor is wanted for, or else as the tensor.
pub proof fn law_first_failure_reads(file: GgufFile, slots: Seq<Slot>, k: int, e: LoadError)
    requires
        0 <= k < slots.len(),
        file.all_load(slots.take(k)),
        file.failure(slots[k]) is Some,
        file.fails_first(slots, e),
    ensures
        file.fails_at(slots, k, e),
        e.text() == if slots[k].context.len() > 0 {
            slots[k].context[0].text()
        } else {
            e.tensor_text()
        },
{
    let i = choose|i: int| #[trigger] file.fails_at(slots, i, e) && file.all_load(slots.take(i));
    if i < k {
        assert(slots.take(k)[i] == slots[i]);
    } else if k < i {
        assert(slots.take(i)[k] == slots[k]);
    }
}

/// A failure in a part of the model that stands behind parts that load reads as that
/// part, with the failure in the part as its cause.
pub proof fn law_part_failure_reads(
    file: GgufFile,
    front: Seq<Slot>,
    c: Context,
    part: Seq<Slot>,
    back: Seq<Slot>,
    inner: LoadError,
    e: LoadError,
)
    requires
        file.all_load(front),
        file.fails_first(part, inner),
        file.fails_first(front + within(c, part) + back, e),
    ensures
        e.wraps(c, inner),
        e.text() == c.text(),
        e.texts() == seq![c.text()] + inner.texts(),
{
    let slots = front + within(c, part) + back;
    let i = choose|i: int| #[trigger] file.fails_at(part, i, inner) && file.all_load(part.take(i));
    let k = front.len() + i;
    assert(slots.take(k) =~= front + within(c, part.take(i)));
    lemma_loads_within(file, c, part.take(i));
    lemma_all_load_both(file, front, within(c, part.take(i)));
    assert(slots[k] == part[i].part_of(c));
    law_first_failure_reads(file, slots, k, e);
    law_context_reads_first(e, c, inner);
}

/// The layers before layer number `i` come first.
proof fn lemma_tower_starts(tower: Tower, i: nat, n: nat)
    requires
        i <= n,
    ensures
        tower.slots(i).is_prefix_of(tower.slots(n)),
    decreases n - i,
{
    if i < n {
        lemma_tower_starts(tower, i + 1, n);
        let a = tower.slots(i);
        let b = tower.slots(i + 1);
        let c = tower.slots(n);
        assert(b =~= c.subrange(0, b.len() as int));
        assert(a =~= b.subrange(0, a.len() as int));
        assert(a =~= c.subrange(0, a.len() as int));
    } else {
        assert(tower.slots(i) =~= tower.slots(n).subrange(0, tower.slots(i).len() as int));
    }
}

/// Layers load together if each of them does.
proof fn lemma_tower_loads(file: GgufFile, tower: Tower, i: nat)
    requires
        forall|j: nat| j < i ==> file.all_load(#[trigger] tower.layer_slots(j)),
    ensures
        file.all_load(tower.slots(i)),
    decreases i,
{
    if i > 0 {
        let j = (i - 1) as nat;
        lemma_tower_loads(file, tower, j);
        assert(file.all_load(tower.layer_slots(j)));
        lemma_loads_within(file, tower.layer_context(j), tower.layer_slots(j));
        lemma_all_load_both(
            file,
            tower.slots(j),
            within(tower.layer_context(j), tower.layer_slots(j)),
        );
    }
}

/// What follows layer number `i` in a list that begins with `front` and `n` layers.
pub proof fn lemma_tower_at(
    front: Seq<Slot>,
    tower: Tower,
    i: nat,
    n: nat,
    back: Seq<Slot>,
) -> (rest: Seq<Slot>)
    requires
        i < n,
    ensures
        front + tower.slots(n) + back == (front + tower.slots(i)) + within(
            tower.layer_context(i),
            tower.layer_slots(i),
        ) + rest,
{
    lemma_tower_starts(tower, i + 1, n);
    let all = tower.slots(n);
    let seen = tower.slots(i + 1);
    let rest = all.skip(seen.len() as int) + back;
    assert(all =~= seen + all.skip(seen.len() as int));
    assert(front + all + back =~= (front + tower.slots(i)) + within(
        tower.layer_context(i),
        tower.layer_slots(i),
    ) + rest);
    rest
}

/// The first layer of the backbone that does not load is named, and its error is the
/// cause.
pub proof fn law_backbone_layer_error(
    file: GgufFile,
    config: TtsBackboneConfig,
    i: nat,
    inner: LoadError,
    e: LoadError,
)
    requires
        i < config.n_layers,
        forall|j: nat| j < i ==> file.all_load(#[trigger] Tower::Backbone.layer_slots(j)),
        file.fails_first(Tower::Backbone.layer_slots(i), inner),
        file.fails_first(backbone_slots(config), e),
    ensures
        e.text() == "Failed to load backbone layer "@ + decimal(i),
        e.texts() == seq![e.text()] + inner.texts(),
{
    let tower = Tower::Backbone;
    let n = config.n_layers as nat;
    let none = Seq::<Slot>::empty();
    let back = backbone_slots(config).skip(tower.slots(n).len() as int);
    lemma_tower_loads(file, tower, i);
    let rest = lemma_tower_at(none, tower, i, n, back);
    assert(backbone_slots(config) =~= none + tower.slots(n) + back);
    assert(none + tower.slots(i) =~= tower.slots(i));
    law_part_failure_reads(
        file,
        tower.slots(i),
        tower.layer_context(i),
        tower.layer_slots(i),
        rest,
        inner,
        e,
    );
}

/// If the projections of the flow-matching transformer load, the first of its layers
/// that does not is named, and its error is the cause.
pub proof fn law_fm_layer_error(
    file: GgufFile,
    config: FmTransformerConfig,
    i: nat,
    inner: LoadError,
    e: LoadError,
)
    requires
        i < config.n_layers,
        file.all_load(fm_projection_slots()),
        forall|j: nat| j < i ==> file.all_load(#[trigger] Tower::FlowMatching.layer_slots(j)),
        file.fails_first(Tower::FlowMatching.layer_slots(i), inner),
        file.fails_first(fm_slots(config), e),
    ensures
        e.text() == "loading FM layer "@ + decimal(i),
        e.texts() == seq![e.text()] + inner.texts(),
{
    let tower = Tower::FlowMatching;
    let n = config.n_layers as nat;
    let front = fm_projection_slots();
    let back = fm_slots(config).skip((front + tower.slots(n)).len() as int);
    lemma_tower_loads(file, tower, i);
    lemma_all_load_both(file, front, tower.slots(i));
    let rest = lemma_tower_at(front, tower, i, n, back);
    assert(fm_slots(config) =~= front + tower.slots(n) + back);
    law_part_failure_reads(
        file,
        front + tower.slots(i),
        tower.layer_context(i),
        tower.layer_slots(i),
        rest,
        inner,
        e,
    );
}

/// The layers of a codec group before layer number `l` come first.
proof fn lemma_group_starts(g: nat, l: nat, n: nat)
    requires
        l <= n,
    ensures
        codec_group_slots(g, l).is_prefix_of(codec_group_slots(g, n)),
    decreases n - l,
{
    let a = codec_group_slots(g, l);
    let c = codec_group_slots(g, n);
    if l < n {
        lemma_group_starts(g, l + 1, n);
        let b = codec_group_slots(g, l + 1);
        assert(b =~= c.subrange(0, b.len() as int));
        assert(a =~= b.subrange(0, a.len() as int));
    }
    assert(a =~= c.subrange(0, a.len() as int));
}

/// The codec groups before group number `g` come first.
proof fn lemma_groups_start(g: nat, n: nat, config: CodecDecoderConfig)
    requires
        g <= n,
    ensures
        codec_groups_slots(g, config).is_prefix_of(codec_groups_slots(n, config)),
    decreases n - g,
{
    let a = codec_groups_slots(g, config);
    let c = codec_groups_slots(n, config);
    if g < n {
        lemma_groups_start(g + 1, n, config);
        let b = codec_groups_slots(g + 1, config);
        assert(b =~= c.subrange(0, b.len() as int));
        assert(a =~= b.subrange(0, a.len() as int));
    }
    assert(a =~= c.subrange(0, a.len() as int));
}

/// Layer number `l` of a codec group, and what follows it in the group.
pub proof fn lemma_group_at(g: nat, l: nat, n: nat) -> (rest: Seq<Slot>)
    requires
        l < n,
    ensures
        codec_group_slots(g, n) == codec_group_slots(g, l) + within(
            codec_layer_context(g, l),
            codec_layer_slots(codec_layer_prefix(g, l)),
        ) + rest,
{
    lemma_group_starts(g, l + 1, n);
    let all = codec_group_slots(g, n);
    let seen = codec_group_slots(g, l + 1);
    assert(all =~= seen + all.skip(seen.len() as int));
    all.skip(seen.len() as int)
}

/// Codec group number `g`, and what follows it among the groups.
pub proof fn lemma_groups_at(g: nat, config: CodecDecoderConfig) -> (rest: Seq<Slot>)
    requires
        g < 4,
    ensures
        codec_groups_slots(4, config) == codec_groups_slots(g, config) + codec_group_slots(
            g,
            config.layers_per_block as nat,
        ) + rest,
{
    lemma_groups_start(g + 1, 4, config);
    let all = codec_groups_slots(4, config);
    let seen = codec_groups_slots(g + 1, config);
    assert(all =~= seen + all.skip(seen.len() as int));
    all.skip(seen.len() as int)
}

/// The parts of a list that is put together in another order of joining.
proof fn lemma_regroup(
    first: Seq<Slot>,
    groups: Seq<Slot>,
    layers: Seq<Slot>,
    part: Seq<Slot>,
    r1: Seq<Slot>,
    r2: Seq<Slot>,
    back: Seq<Slot>,
)
    ensures
        first + (groups + (layers + part + r1) + r2) + back == (first + groups + layers) + part
            + (r1 + r2 + back),
{
    assert(first + (groups + (layers + part + r1) + r2) + back =~= (first + groups + layers) + part
        + (r1 + r2 + back));
}

/// If the first convolution and the layers before it load, a layer of the codec that
/// does not load is named by its block and its number, and its error is the cause.
pub proof fn law_codec_layer_error(
    file: GgufFile,
    config: CodecDecoderConfig,
    g: nat,
    l: nat,
    inner: LoadError,
    e: LoadError,
)
    requires
        g < 4,
        l < config.layers_per_block,
        file.failure(input_conv_slot()) is None,
        file.all_load(codec_groups_slots(g, config)),
        file.all_load(codec_group_slots(g, l)),
        file.fails_first(codec_layer_slots(codec_layer_prefix(g, l)), inner),
        file.fails_first(codec_slots(config), e),
    ensures
        e.text() == "Loading transformer block "@ + decimal(2 * g + 1) + " layer "@ + decimal(l),
        e.texts() == seq![e.text()] + inner.texts(),
{
    let n = config.layers_per_block as nat;
    let c = codec_layer_context(g, l);
    let part = codec_layer_slots(codec_layer_prefix(g, l));
    let first = seq![input_conv_slot()];
    let groups = codec_groups_slots(g, config);
    let layers = codec_group_slots(g, l);
    let all = codec_groups_slots(4, config);
    let back = upsample_slots(3) + seq![output_conv_slot()] + codebook_slots();
    let r1 = lemma_group_at(g, l, n);
    let r2 = lemma_groups_at(g, config);
    assert(codec_slots(config) =~= first + all + back);
    lemma_regroup(first, groups, layers, within(c, part), r1, r2, back);
    assert(first[0] == input_conv_slot());
    lemma_all_load_both(file, first, groups);
    lemma_all_load_both(file, first + groups, layers);
    law_part_failure_reads(
        file,
        first + groups + layers,
        c,
        part,
        r1 + r2 + back,
        inner,
        e,
    );
}

} // verus!

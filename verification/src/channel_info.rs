//! The overview of the channels that a device provides.
use vstd::prelude::*;

use indexmap::IndexMap;

use crate::text::{decimal, lemma_decimal_injective, push_decimal};

verus! {

#[verifier::external_type_specification]
#[verifier::external_body]
#[verifier::reject_recursive_types(K)]
#[verifier::reject_recursive_types(V)]
#[verifier::reject_recursive_types(S)]
pub struct ExIndexMap<K, V, S>(IndexMap<K, V, S>);

/// The entries of a map from channel numbers to labels, in the map's order.
pub uninterp spec fn index_map_entries(m: IndexMap<usize, String>) -> Seq<(usize, Seq<char>)>;

/// `IndexMap::new`: a new map holds no entries.
#[verifier::external_body]
fn index_map_new() -> (m: IndexMap<usize, String>)
    ensures
        index_map_entries(m) == Seq::<(usize, Seq<char>)>::empty(),
{
    IndexMap::new()
}

/// `IndexMap::insert`: a key that is present keeps its place and gets the
/// new value, and the old value is returned; a new key is appended last
/// and `None` is returned.
#[verifier::external_body]
fn index_map_insert(m: &mut IndexMap<usize, String>, key: usize, value: String) -> (prev: Option<
    String,
>)
    ensures
        ({
            let before = index_map_entries(*old(m));
            let after = index_map_entries(*final(m));
            match prev {
                None => {
                    &&& forall|i: int| 0 <= i < before.len() ==> #[trigger] before[i].0 != key
                    &&& after == before.push((key, value@))
                },
                Some(p) => exists|i: int|
                    0 <= i < before.len() && #[trigger] before[i].0 == key && p@ == before[i].1
                        && after == before.update(i, (key, value@)),
            }
        }),
{
    m.insert(key, value)
}

/// What the I/O library reports of one channel: whether it is a dummy
/// (a placeholder for hardware that is not fitted), and its label, if
/// it has one.
pub struct ChannelDesc {
    pub is_dummy: bool,
    pub label: Option<String>,
}

/// What the I/O library reports of all channels of the device.
pub struct IoChannelInfo {
    pub run_led: ChannelDesc,
    pub err_led: ChannelDesc,
    pub run_switch: ChannelDesc,
    pub config_switch: ChannelDesc,
    pub outputs: Vec<ChannelDesc>,
    pub inputs: Vec<ChannelDesc>,
    pub analog_inputs: Vec<ChannelDesc>,
    pub analog_outputs: Vec<ChannelDesc>,
    pub temp_sensors: Vec<ChannelDesc>,
    pub counter_inputs: Vec<ChannelDesc>,
    pub pwm_outputs: Vec<ChannelDesc>,
}

/// Provides all available channels and their respective names.
pub struct ChannelInfo {
    pub run_led: bool,
    pub err_led: bool,
    pub run_switch: bool,
    pub config_switch: bool,
    pub outputs: IndexMap<usize, String>,
    pub inputs: IndexMap<usize, String>,
    pub analog_inputs: IndexMap<usize, String>,
    pub analog_outputs: IndexMap<usize, String>,
    pub temp_sensors: IndexMap<usize, String>,
    pub counter_inputs: IndexMap<usize, String>,
    pub pwm_outputs: IndexMap<usize, String>,
}

/// The label shown for channel `index`: its own label, or the prefix
/// followed by the channel number.
pub open spec fn channel_label(prefix: Seq<char>, index: int, c: ChannelDesc) -> Seq<char> {
    match c.label {
        Some(l) => l@,
        None => prefix + decimal(index as nat),
    }
}

/// The entries listed for a sequence of channels: every channel that is
/// not a dummy, by its number and label, in channel order.
pub open spec fn channel_entries(prefix: Seq<char>, chans: Seq<ChannelDesc>) -> Seq<(usize, Seq<char>)>
    decreases chans.len(),
{
    if chans.len() == 0 {
        Seq::empty()
    } else {
        let i = chans.len() - 1;
        let rest = channel_entries(prefix, chans.drop_last());
        if chans.last().is_dummy {
            rest
        } else {
            rest.push((i as usize, channel_label(prefix, i, chans.last())))
        }
    }
}

/// Every channel that is not a dummy is listed exactly once, under its
/// own number and label; no dummy is listed; the numbers come in
/// increasing order.
pub proof fn lemma_channel_entries(prefix: Seq<char>, chans: Seq<ChannelDesc>)
    requires
        chans.len() <= usize::MAX + 1,
    ensures
        forall|j: int|
            0 <= j < channel_entries(prefix, chans).len() ==> {
                let (k, label) = #[trigger] channel_entries(prefix, chans)[j];
                &&& k < chans.len()
                &&& !chans[k as int].is_dummy
                &&& chans[k as int].label matches Some(l) ==> label == l@
                &&& chans[k as int].label is None ==> label == prefix + decimal(k as nat)
            },
        forall|j1: int, j2: int|
            0 <= j1 < j2 < channel_entries(prefix, chans).len() ==> channel_entries(
                prefix,
                chans,
            )[j1].0 < channel_entries(prefix, chans)[j2].0,
        forall|k: int|
            0 <= k < chans.len() && !(#[trigger] chans[k]).is_dummy ==> exists|j: int|
                0 <= j < channel_entries(prefix, chans).len() && channel_entries(prefix, chans)[j].0
                    == k,
    decreases chans.len(),
{
    if chans.len() > 0 {
        let rest = chans.drop_last();
        lemma_channel_entries(prefix, rest);
        let i = chans.len() - 1;
        assert forall|k: int| 0 <= k < rest.len() implies rest[k] == chans[k] by {}
        let e = channel_entries(prefix, chans);
        let r = channel_entries(prefix, rest);
        assert forall|k: int|
            0 <= k < chans.len() && !(#[trigger] chans[k]).is_dummy implies exists|j: int|
                0 <= j < e.len() && e[j].0 == k by {
            if k < i {
                assert(!rest[k].is_dummy);
                let j = choose|j: int| 0 <= j < r.len() && r[j].0 == k;
                assert(e[j] == r[j]);
            } else {
                assert(e[e.len() - 1].0 == k);
            }
        }
    }
}

/// Two listed channels without a label of their own get different
/// labels in the overview.
pub proof fn lemma_unlabelled_entries_differ(prefix: Seq<char>, chans: Seq<ChannelDesc>)
    requires
        chans.len() <= usize::MAX + 1,
    ensures
        forall|j1: int, j2: int|
            0 <= j1 < j2 < channel_entries(prefix, chans).len() && chans[channel_entries(
                prefix,
                chans,
            )[j1].0 as int].label is None && chans[channel_entries(prefix, chans)[j2].0 as int].label
                is None ==> channel_entries(prefix, chans)[j1].1 != channel_entries(
                prefix,
                chans,
            )[j2].1,
{
    lemma_channel_entries(prefix, chans);
    lemma_unlabelled_names_differ(prefix, chans);
    let e = channel_entries(prefix, chans);
    assert forall|j1: int, j2: int|
        0 <= j1 < j2 < e.len() && chans[e[j1].0 as int].label is None && chans[e[
            j2
        ].0 as int].label is None implies e[j1].1 != e[j2].1 by {
        let a = e[j1].0 as int;
        let b = e[j2].0 as int;
        assert(a < b);
        assert(e[j1].1 == prefix + decimal(a as nat));
        assert(e[j2].1 == prefix + decimal(b as nat));
    }
}

/// Two channels without a label of their own that are both listed get
/// different names: the prefix followed by different decimal numbers.
pub proof fn lemma_unlabelled_names_differ(prefix: Seq<char>, chans: Seq<ChannelDesc>)
    ensures
        forall|a: int, b: int|
            0 <= a < b < chans.len() && chans[a].label is None && chans[b].label is None
                ==> prefix + decimal(a as nat) != prefix + decimal(b as nat),
{
    assert forall|a: int, b: int|
        0 <= a < b < chans.len() && chans[a].label is None && chans[b].label is None implies prefix
        + decimal(a as nat) != prefix + decimal(b as nat) by {
        lemma_decimal_injective(a as nat, b as nat);
        if prefix + decimal(a as nat) == prefix + decimal(b as nat) {
            assert((prefix + decimal(a as nat)).skip(prefix.len() as int) =~= decimal(a as nat));
            assert((prefix + decimal(b as nat)).skip(prefix.len() as int) =~= decimal(b as nat));
        }
    }
}

/// The label for a channel without one of its own.
fn fallback_label(prefix: &str, index: usize) -> (label: String)
    ensures
        label@ == prefix@ + decimal(index as nat),
{
    let mut label = prefix.to_owned();
    push_decimal(&mut label, index as u64);
    label
}

/// Lists the channels that are not dummies, each by its number and label;
/// a channel without a label is named by `prefix` and its number.
pub fn to_map(prefix: &str, channels: &[ChannelDesc]) -> (map: IndexMap<usize, String>)
    ensures
        index_map_entries(map) == channel_entries(prefix@, channels@),
{
    let mut map = index_map_new();
    let n = channels.len();
    let mut i: usize = 0;
    while i < n
        invariant
            n == channels@.len(),
            i <= n,
            index_map_entries(map) == channel_entries(prefix@, channels@.take(i as int)),
            forall|j: int|
                0 <= j < index_map_entries(map).len() ==> #[trigger] index_map_entries(map)[j].0
                    < i,
        decreases n - i,
    {
        let c = &channels[i];
        assert(channels@.take(i + 1).drop_last() =~= channels@.take(i as int));
        if !c.is_dummy {
            let label = match &c.label {
                Some(l) => l.clone(),
                None => fallback_label(prefix, i),
            };
            let prev = index_map_insert(&mut map, i, label);
            assert(prev is None);
        }
        i = i + 1;
    }
    assert(channels@.take(n as int) =~= channels@);
    map
}

/// Builds the channel overview: a single channel counts as available when
/// it is not a dummy, and each group of channels is listed by `to_map`
/// with its own label prefix.
pub fn get_channel_info(info: &IoChannelInfo) -> (res: ChannelInfo)
    ensures
        res.run_led == !info.run_led.is_dummy,
        res.err_led == !info.err_led.is_dummy,
        res.run_switch == !info.run_switch.is_dummy,
        res.config_switch == !info.config_switch.is_dummy,
        index_map_entries(res.outputs) == channel_entries("DO"@, info.outputs@),
        index_map_entries(res.inputs) == channel_entries("DI"@, info.inputs@),
        index_map_entries(res.analog_inputs) == channel_entries("AI"@, info.analog_inputs@),
        index_map_entries(res.analog_outputs) == channel_entries("AO"@, info.analog_outputs@),
        index_map_entries(res.temp_sensors) == channel_entries("TMP"@, info.temp_sensors@),
        index_map_entries(res.counter_inputs) == channel_entries("CNT"@, info.counter_inputs@),
        index_map_entries(res.pwm_outputs) == channel_entries("PWM"@, info.pwm_outputs@),
{
    ChannelInfo {
        run_led: !info.run_led.is_dummy,
        err_led: !info.err_led.is_dummy,
        run_switch: !info.run_switch.is_dummy,
        config_switch: !info.config_switch.is_dummy,
        outputs: to_map("DO", info.outputs.as_slice()),
        inputs: to_map("DI", info.inputs.as_slice()),
        analog_inputs: to_map("AI", info.analog_inputs.as_slice()),
        analog_outputs: to_map("AO", info.analog_outputs.as_slice()),
        temp_sensors: to_map("TMP", info.temp_sensors.as_slice()),
        counter_inputs: to_map("CNT", info.counter_inputs.as_slice()),
        pwm_outputs: to_map("PWM", info.pwm_outputs.as_slice()),
    }
}

} // verus!

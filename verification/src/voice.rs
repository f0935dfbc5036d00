//! Decisions for the self-managing voice-channel pools.
//!
//! A category keeps a pool of voice channels: when every channel in it is
//! occupied (and the pool is under its cap) a new one is created under a
//! name not currently in use, and emptied channels are deleted — all but
//! the last listed one.  The functions here make those decisions over
//! plain channel records; listing channels, creating and deleting them is
//! the driver's side.

use vstd::prelude::*;

use rand::seq::SliceRandom;

verus! {

/// One voice channel, as the platform lists it.
pub struct VoiceChannel {
    pub channel_id: u64,
    /// The category the channel sits under, if any.
    pub parent_id: Option<u64>,
    pub name: String,
    /// How many members currently sit in the channel.
    pub member_count: usize,
}

/// Ghost model of a `VoiceChannel`.
pub ghost struct VoiceChannelModel {
    pub channel_id: u64,
    pub parent_id: Option<u64>,
    pub name: Seq<char>,
    pub member_count: usize,
}

impl View for VoiceChannel {
    type V = VoiceChannelModel;

    open spec fn view(&self) -> VoiceChannelModel {
        VoiceChannelModel {
            channel_id: self.channel_id,
            parent_id: self.parent_id,
            name: self.name@,
            member_count: self.member_count,
        }
    }
}

/// The ghost models of a sequence of channels.
pub open spec fn channel_views(cs: Seq<VoiceChannel>) -> Seq<VoiceChannelModel> {
    cs.map_values(|c: VoiceChannel| c@)
}

/// Whether the channel sits under the given category.
pub open spec fn in_category(c: VoiceChannelModel, category: u64) -> bool {
    c.parent_id == Some(category)
}

/// The channels under the given category, in listing order.
pub open spec fn category_channels(cs: Seq<VoiceChannelModel>, category: u64) -> Seq<
    VoiceChannelModel,
>
    decreases cs.len(),
{
    if cs.len() == 0 {
        Seq::empty()
    } else {
        category_channels(cs.drop_last(), category) + if in_category(cs.last(), category) {
            seq![cs.last()]
        } else {
            Seq::empty()
        }
    }
}

/// The empty channels under the given category, in listing order.
pub open spec fn empty_category_channels(cs: Seq<VoiceChannelModel>, category: u64) -> Seq<
    VoiceChannelModel,
>
    decreases cs.len(),
{
    if cs.len() == 0 {
        Seq::empty()
    } else {
        empty_category_channels(cs.drop_last(), category) + if in_category(cs.last(), category)
            && cs.last().member_count == 0 {
            seq![cs.last()]
        } else {
            Seq::empty()
        }
    }
}

/// How many channels sit under the category.
pub fn count_in_category(channels: &Vec<VoiceChannel>, category: u64) -> (n: usize)
    ensures
        n == category_channels(channel_views(channels@), category).len(),
{
    let ghost cs = channel_views(channels@);
    let len = channels.len();
    let mut n: usize = 0;
    let mut i: usize = 0;
    while i < len
        invariant
            0 <= i <= len == channels@.len(),
            cs == channel_views(channels@),
            n == category_channels(cs.take(i as int), category).len(),
            n <= i,
        decreases len - i,
    {
        proof {
            assert(cs.take(i as int + 1).drop_last() =~= cs.take(i as int));
            assert(cs.take(i as int + 1).last() == channels@[i as int]@);
        }
        let c = &channels[i];
        if match c.parent_id {
            Some(p) => p == category,
            None => false,
        } {
            n = n + 1;
        }
        i = i + 1;
    }
    proof {
        assert(cs.take(len as int) =~= cs);
    }
    n
}

/// How many channels under the category are empty.
pub fn count_empty_in_category(channels: &Vec<VoiceChannel>, category: u64) -> (n: usize)
    ensures
        n == empty_category_channels(channel_views(channels@), category).len(),
{
    let ghost cs = channel_views(channels@);
    let len = channels.len();
    let mut n: usize = 0;
    let mut i: usize = 0;
    while i < len
        invariant
            0 <= i <= len == channels@.len(),
            cs == channel_views(channels@),
            n == empty_category_channels(cs.take(i as int), category).len(),
            n <= i,
        decreases len - i,
    {
        proof {
            assert(cs.take(i as int + 1).drop_last() =~= cs.take(i as int));
            assert(cs.take(i as int + 1).last() == channels@[i as int]@);
        }
        let c = &channels[i];
        if c.member_count == 0 && match c.parent_id {
            Some(p) => p == category,
            None => false,
        } {
            n = n + 1;
        }
        i = i + 1;
    }
    proof {
        assert(cs.take(len as int) =~= cs);
    }
    n
}

/// The names of the channels under the category, in listing order.
pub fn names_in_category(channels: &Vec<VoiceChannel>, category: u64) -> (names: Vec<String>)
    ensures
        names@.map_values(|s: String| s@) == category_channels(
            channel_views(channels@),
            category,
        ).map_values(|c: VoiceChannelModel| c.name),
{
    let ghost cs = channel_views(channels@);
    let len = channels.len();
    let mut names: Vec<String> = Vec::new();
    let mut i: usize = 0;
    while i < len
        invariant
            0 <= i <= len == channels@.len(),
            cs == channel_views(channels@),
            names@.map_values(|s: String| s@) == category_channels(
                cs.take(i as int),
                category,
            ).map_values(|c: VoiceChannelModel| c.name),
        decreases len - i,
    {
        proof {
            assert(cs.take(i as int + 1).drop_last() =~= cs.take(i as int));
            assert(cs.take(i as int + 1).last() == channels@[i as int]@);
        }
        let c = &channels[i];
        if match c.parent_id {
            Some(p) => p == category,
            None => false,
        } {
            let ghost prev = names@;
            names.push(c.name.clone());
            proof {
                prev.lemma_push_map_commute(|s: String| s@, names@[names@.len() - 1]);
                assert(names@.map_values(|s: String| s@) =~= category_channels(
                    cs.take(i as int + 1),
                    category,
                ).map_values(|c2: VoiceChannelModel| c2.name));
            }
        } else {
            proof {
                assert(category_channels(cs.take(i as int + 1), category) =~= category_channels(
                    cs.take(i as int),
                    category,
                ));
            }
        }
        i = i + 1;
    }
    proof {
        assert(cs.take(len as int) =~= cs);
    }
    names
}

/// The configured pool names not currently in use, in configuration order.
pub open spec fn available_names_model(pool: Seq<Seq<char>>, used: Seq<Seq<char>>) -> Seq<
    Seq<char>,
>
    decreases pool.len(),
{
    if pool.len() == 0 {
        Seq::empty()
    } else {
        available_names_model(pool.drop_last(), used) + if used.contains(pool.last()) {
            Seq::empty()
        } else {
            seq![pool.last()]
        }
    }
}

/// Whether `s` occurs among the views of `items`.
fn contains_name(items: &Vec<String>, s: &String) -> (r: bool)
    ensures
        r == items@.map_values(|x: String| x@).contains(s@),
{
    let n = items.len();
    let mut i: usize = 0;
    while i < n
        invariant
            0 <= i <= n == items@.len(),
            forall|j: int| 0 <= j < i ==> (#[trigger] items@[j])@ != s@,
        decreases n - i,
    {
        if items[i] == *s {
            proof {
                assert(items@.map_values(|x: String| x@)[i as int] == s@);
            }
            return true;
        }
        i = i + 1;
    }
    proof {
        let m = items@.map_values(|x: String| x@);
        if m.contains(s@) {
            let k = choose|k: int| 0 <= k < m.len() && m[k] == s@;
            assert(items@[k]@ == s@);
        }
    }
    false
}

/// The pool names not currently used by any listed channel.
pub fn available_names(pool: &Vec<String>, used: &Vec<String>) -> (names: Vec<String>)
    ensures
        names@.map_values(|s: String| s@) == available_names_model(
            pool@.map_values(|s: String| s@),
            used@.map_values(|s: String| s@),
        ),
{
    let ghost poolm = pool@.map_values(|s: String| s@);
    let ghost usedm = used@.map_values(|s: String| s@);
    let len = pool.len();
    let mut names: Vec<String> = Vec::new();
    let mut i: usize = 0;
    while i < len
        invariant
            0 <= i <= len == pool@.len(),
            poolm == pool@.map_values(|s: String| s@),
            usedm == used@.map_values(|s: String| s@),
            names@.map_values(|s: String| s@) == available_names_model(
                poolm.take(i as int),
                usedm,
            ),
        decreases len - i,
    {
        proof {
            assert(poolm.take(i as int + 1).drop_last() =~= poolm.take(i as int));
            assert(poolm.take(i as int + 1).last() == pool@[i as int]@);
        }
        if !contains_name(used, &pool[i]) {
            let ghost prev = names@;
            names.push(pool[i].clone());
            proof {
                prev.lemma_push_map_commute(|s: String| s@, names@[names@.len() - 1]);
                assert(names@.map_values(|s: String| s@) =~= available_names_model(
                    poolm.take(i as int + 1),
                    usedm,
                ));
            }
        } else {
            proof {
                assert(available_names_model(poolm.take(i as int + 1), usedm)
                    =~= available_names_model(poolm.take(i as int), usedm));
            }
        }
        i = i + 1;
    }
    proof {
        assert(poolm.take(len as int) =~= poolm);
    }
    names
}

/// A new channel is created exactly when the category's pool is under its
/// cap and none of its channels is empty.
pub fn should_create_channel(
    channels: &Vec<VoiceChannel>,
    category: u64,
    max_channels: usize,
) -> (r: bool)
    ensures
        r == (category_channels(channel_views(channels@), category).len() < max_channels
            && empty_category_channels(channel_views(channels@), category).len() == 0),
{
    let count = count_in_category(channels, category);
    if count >= max_channels {
        return false;
    }
    let empty = count_empty_in_category(channels, category);
    empty == 0
}

/// Whether a listed channel is ripe for deletion under the category: it
/// sits there and nobody is in it.
pub open spec fn deletable(c: VoiceChannelModel, category: u64) -> bool {
    in_category(c, category) && c.member_count == 0
}

/// The channels to delete among a listing, from the end of the listing
/// backwards, always sparing the last listed channel.
pub open spec fn delete_candidates(cs: Seq<VoiceChannelModel>, category: u64) -> Seq<u64> {
    if cs.len() <= 1 {
        Seq::empty()
    } else {
        delete_from(cs.drop_last(), category)
    }
}

/// The deletable channels of a listing, last first.
pub open spec fn delete_from(cs: Seq<VoiceChannelModel>, category: u64) -> Seq<u64>
    decreases cs.len(),
{
    if cs.len() == 0 {
        Seq::empty()
    } else {
        (if deletable(cs.last(), category) {
            seq![cs.last().channel_id]
        } else {
            Seq::empty()
        }) + delete_from(cs.drop_last(), category)
    }
}

/// The identifiers of the channels to delete under the category: every
/// empty channel of the category except the last listed channel, walked
/// from the end of the listing backwards.
pub fn channels_to_delete(channels: &Vec<VoiceChannel>, category: u64) -> (out: Vec<u64>)
    ensures
        out@ == delete_candidates(channel_views(channels@), category),
{
    let ghost cs = channel_views(channels@);
    let mut out: Vec<u64> = Vec::new();
    let len = channels.len();
    if len <= 1 {
        proof {
            assert(out@ =~= delete_candidates(cs, category));
        }
        return out;
    }
    let mut i: usize = len - 1;
    while i > 0
        invariant
            0 <= i <= len - 1,
            2 <= len == channels@.len(),
            cs == channel_views(channels@),
            out@ + delete_from(cs.take(i as int), category) == delete_from(
                cs.take(len - 1),
                category,
            ),
        decreases i,
    {
        i = i - 1;
        proof {
            assert(cs.take(i as int + 1).drop_last() =~= cs.take(i as int));
            assert(cs.take(i as int + 1).last() == channels@[i as int]@);
        }
        let c = &channels[i];
        let ghost before = out@;
        if c.member_count == 0 && match c.parent_id {
            Some(p) => p == category,
            None => false,
        } {
            out.push(c.channel_id);
        }
        proof {
            assert(delete_from(cs.take(i as int + 1), category) == (if deletable(
                cs[i as int],
                category,
            ) {
                seq![cs[i as int].channel_id]
            } else {
                Seq::<u64>::empty()
            }) + delete_from(cs.take(i as int), category));
            assert(out@ + delete_from(cs.take(i as int), category) =~= before + delete_from(
                cs.take(i as int + 1),
                category,
            ));
        }
    }
    proof {
        assert(cs.take(0) =~= Seq::<VoiceChannelModel>::empty());
        assert(out@ =~= delete_from(cs.take(len - 1), category));
        assert(cs.take(len - 1) =~= cs.drop_last());
    }
    out
}

/// Relies on `rand`'s `SliceRandom::choose`: `None` exactly on an empty
/// slice, otherwise a reference to one of its elements, chosen at random.
#[verifier::external_body]
fn choose_string(options: &Vec<String>) -> (r: Option<String>)
    ensures
        r is Some <==> options@.len() > 0,
        r is Some ==> exists|i: int| 0 <= i < options@.len() && r->0@ == options@[i]@,
{
    options.choose(&mut rand::thread_rng()).cloned()
}

/// A name for the new channel: one of the available names at random, or a
/// fixed fallback when every name is taken.
pub fn pick_channel_name(options: &Vec<String>) -> (r: String)
    ensures
        options@.len() == 0 ==> r@ == "ERROR"@,
        options@.len() > 0 ==> exists|i: int| 0 <= i < options@.len() && r@ == options@[i]@,
{
    match choose_string(options) {
        Some(name) => name,
        None => "ERROR".to_owned(),
    }
}

} // verus!

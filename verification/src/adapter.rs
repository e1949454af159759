//! From colour samples to output commands.
//!
//! A zone's samples are laid out as interleaved red, green and blue bytes and
//! cut into payloads of [`MAX_PAYLOAD`] bytes, one universe after the other,
//! starting at the universe that the caller's mapping gives for the zone.

use std::collections::HashMap;
use vstd::prelude::*;
use vstd::slice::{slice_subrange, slice_to_vec};
use vstd::std_specs::hash::group_hash_axioms;
use crate::command::{models, Command, CommandModel, MAX_PAYLOAD, MAX_UNIVERSE};
use crate::intensity::{intensity, intensity_of};
use crate::wire::encoded;

verus! {

broadcast use group_hash_axioms;

/// The colour of one pixel, one intensity per channel.
#[derive(Clone, Copy, Debug, PartialEq, Eq, Structural)]
pub struct Rgb {
    pub r: u8,
    pub g: u8,
    pub b: u8,
}

impl Rgb {
    /// The colour of a pixel from its three normalized samples, each given
    /// by the bits of a single-precision number.
    pub fn from_samples(red: u32, green: u32, blue: u32) -> (pixel: Rgb)
        ensures
            pixel.r == intensity_of(red),
            pixel.g == intensity_of(green),
            pixel.b == intensity_of(blue),
    {
        Rgb { r: intensity(red), g: intensity(green), b: intensity(blue) }
    }
}

/// Where a zone's data goes: its first universe, and the channel at which
/// the zone's fixtures are patched there. The adapter fills each universe
/// from its first channel on and hands the channel through unread.
#[derive(Clone, Copy, Debug, PartialEq, Eq, Structural)]
pub struct ZoneTarget {
    pub universe: u16,
    pub start_channel: u16,
}

/// Why a zone's samples gave no commands.
#[derive(Clone, Copy, Debug, PartialEq, Eq, Structural)]
pub enum AdapterError {
    /// The mapping has no entry for the zone.
    UnknownZone,
    /// The samples need a universe above [`MAX_UNIVERSE`].
    UniverseOutOfRange,
}

/// The intensity of one channel of a pixel: 0 red, 1 green, 2 blue.
pub open spec fn channel(sample: Rgb, index: int) -> u8 {
    if index == 0 {
        sample.r
    } else if index == 1 {
        sample.g
    } else {
        sample.b
    }
}

/// The samples as one sequence of bytes: red, green and blue of the first
/// pixel, then of the second, and so on.
pub open spec fn flattened(samples: Seq<Rgb>) -> Seq<u8> {
    Seq::new(3 * samples.len(), |k: int| channel(samples[k / 3], k % 3))
}

/// How many payloads a stream of `total` bytes fills.
pub open spec fn packet_count(total: int) -> int {
    (total + MAX_PAYLOAD - 1) / (MAX_PAYLOAD as int)
}

/// The payload with the given index: the stream's next [`MAX_PAYLOAD`]
/// bytes, or what is left of it.
pub open spec fn payload(stream: Seq<u8>, index: int) -> Seq<u8> {
    stream.subrange(
        index * MAX_PAYLOAD,
        if (index + 1) * MAX_PAYLOAD <= stream.len() {
            (index + 1) * MAX_PAYLOAD
        } else {
            stream.len() as int
        },
    )
}

/// The commands that carry a stream, the first of them to universe `base`.
pub open spec fn packets(base: u16, stream: Seq<u8>) -> Seq<CommandModel> {
    Seq::new(
        packet_count(stream.len() as int) as nat,
        |index: int|
            CommandModel::Output {
                universe: (base + index) as u16,
                channel_data: payload(stream, index),
            },
    )
}

/// What cutting a stream gives: the commands that carry it from universe
/// `base` on, or nothing where the last of them would leave the range of
/// universes.
pub open spec fn carried(base: u16, stream: Seq<u8>) -> Result<Seq<CommandModel>, AdapterError> {
    if stream.len() > 0 && base + packet_count(stream.len() as int) - 1 > MAX_UNIVERSE {
        Err(AdapterError::UniverseOutOfRange)
    } else {
        Ok(packets(base, stream))
    }
}

/// What the adapter gives for a zone: the commands that carry its samples,
/// or the reason why there are none.
pub open spec fn built(zone: u64, samples: Seq<Rgb>, mapping: Map<u64, ZoneTarget>) -> Result<
    Seq<CommandModel>,
    AdapterError,
> {
    if !mapping.contains_key(zone) {
        Err(AdapterError::UnknownZone)
    } else {
        carried(mapping[zone].universe, flattened(samples))
    }
}

/// Lays the samples out as interleaved red, green and blue bytes.
pub fn flatten(samples: &[Rgb]) -> (stream: Vec<u8>)
    ensures
        stream@ == flattened(samples@),
{
    let mut stream: Vec<u8> = Vec::new();
    let mut done: usize = 0;
    while done < samples.len()
        invariant
            done <= samples@.len(),
            stream@.len() == 3 * done,
            forall|k: int| 0 <= k < stream@.len() ==> stream@[k] == channel(samples@[k / 3], k % 3),
        decreases samples@.len() - done,
    {
        let sample = samples[done];
        stream.push(sample.r);
        stream.push(sample.g);
        stream.push(sample.b);
        done = done + 1;
    }
    assert(stream@ =~= flattened(samples@));
    stream
}

/// Cuts a stream of channel bytes into commands of at most [`MAX_PAYLOAD`]
/// bytes each, for the universes from `base` on.
///
/// Fails where the last command would need a universe above
/// [`MAX_UNIVERSE`]; an empty stream gives no command and never fails.
pub fn split(base: u16, stream: &[u8]) -> (result: Result<Vec<Command>, AdapterError>)
    ensures
        match result {
            Ok(commands) => carried(base, stream@) == Ok::<Seq<CommandModel>, AdapterError>(
                models(commands@),
            ),
            Err(error) => carried(base, stream@) == Err::<Seq<CommandModel>, AdapterError>(error),
        },
{
    let total = stream.len();
    let count = total / MAX_PAYLOAD + if total % MAX_PAYLOAD == 0 {
        0
    } else {
        1
    };
    assert(count == packet_count(total as int));
    if count > 0 && (base > MAX_UNIVERSE || count > (MAX_UNIVERSE - base) as usize + 1) {
        return Err(AdapterError::UniverseOutOfRange);
    }
    let mut commands: Vec<Command> = Vec::new();
    let mut index: usize = 0;
    while index < count
        invariant
            total == stream@.len(),
            count == packet_count(total as int),
            index <= count,
            count > 0 ==> base + count - 1 <= MAX_UNIVERSE,
            commands@.len() == index,
            forall|i: int|
                0 <= i < index ==> (#[trigger] commands@[i])@ == (CommandModel::Output {
                    universe: (base + i) as u16,
                    channel_data: payload(stream@, i),
                }),
        decreases count - index,
    {
        let start = index * MAX_PAYLOAD;
        let end = if total - start > MAX_PAYLOAD {
            start + MAX_PAYLOAD
        } else {
            total
        };
        let channel_data = slice_to_vec(slice_subrange(stream, start, end));
        let universe = base + index as u16;
        commands.push(Command::Output { universe, channel_data });
        index = index + 1;
    }
    assert(models(commands@) =~= packets(base, stream@));
    Ok(commands)
}

/// The commands that carry a zone's samples.
///
/// The samples are flattened to interleaved red, green and blue bytes and
/// cut at every [`MAX_PAYLOAD`] bytes; the command with index `i` goes to
/// the zone's universe plus `i`. Fails where the mapping does not know the
/// zone, and where the last command would need a universe above
/// [`MAX_UNIVERSE`]. The result depends on the arguments alone.
pub fn build_commands(zone_id: u64, samples: &[Rgb], mapping: &HashMap<u64, ZoneTarget>) -> (result:
    Result<Vec<Command>, AdapterError>)
    ensures
        match result {
            Ok(commands) => built(zone_id, samples@, mapping@) == Ok::<
                Seq<CommandModel>,
                AdapterError,
            >(models(commands@)),
            Err(error) => built(zone_id, samples@, mapping@) == Err::<
                Seq<CommandModel>,
                AdapterError,
            >(error),
        },
{
    match mapping.get(&zone_id) {
        None => Err(AdapterError::UnknownZone),
        Some(target) => {
            let stream = flatten(samples);
            split(target.universe, stream.as_slice())
        },
    }
}

/// The three bytes of pixel `pixel` stand in the stream at three times its
/// index: red, green, blue.
pub proof fn lemma_pixel_bytes(samples: Seq<Rgb>, pixel: int)
    requires
        0 <= pixel < samples.len(),
    ensures
        flattened(samples).len() == 3 * samples.len(),
        flattened(samples).subrange(3 * pixel, 3 * pixel + 3) == seq![
            samples[pixel].r,
            samples[pixel].g,
            samples[pixel].b,
        ],
{
    let stream = flattened(samples);
    let bytes = stream.subrange(3 * pixel, 3 * pixel + 3);
    assert(bytes[0] == stream[3 * pixel] && bytes[1] == stream[3 * pixel + 1] && bytes[2]
        == stream[3 * pixel + 2]);
    assert(bytes =~= seq![samples[pixel].r, samples[pixel].g, samples[pixel].b]);
}

/// The shape of what a stream of `total` bytes is cut into: the least number
/// of payloads that holds it, to consecutive universes from `base` on, each
/// but the last full and the last holding the rest.
pub proof fn lemma_packet_shape(base: u16, stream: Seq<u8>, index: int)
    requires
        0 <= index < packet_count(stream.len() as int),
    ensures
        packets(base, stream).len() == packet_count(stream.len() as int),
        (packet_count(stream.len() as int) - 1) * MAX_PAYLOAD < stream.len() <= packet_count(
            stream.len() as int,
        ) * MAX_PAYLOAD,
        packets(base, stream)[index].universe() == (base + index) as u16,
        1 <= packets(base, stream)[index].channel_data().len() <= MAX_PAYLOAD,
        index < packet_count(stream.len() as int) - 1 ==> packets(
            base,
            stream,
        )[index].channel_data().len() == MAX_PAYLOAD,
        index == packet_count(stream.len() as int) - 1 ==> packets(
            base,
            stream,
        )[index].channel_data().len() == stream.len() - index * MAX_PAYLOAD,
{
}

/// The index of the payload in which the stream's byte at `position`
/// travels.
pub open spec fn payload_index(position: int) -> int {
    position / (MAX_PAYLOAD as int)
}

/// The place that the stream's byte at `position` has in its payload.
pub open spec fn payload_place(position: int) -> int {
    position % (MAX_PAYLOAD as int)
}

/// Each byte of the stream travels in the payload that its position
/// selects, at the place that its position has there: the payloads, one
/// after the other, are the stream.
pub proof fn lemma_byte_placement(base: u16, stream: Seq<u8>, position: int)
    requires
        0 <= position < stream.len(),
    ensures
        0 <= payload_index(position) < packets(base, stream).len(),
        0 <= payload_place(position) < payload(stream, payload_index(position)).len(),
        packets(base, stream)[payload_index(position)].channel_data() == payload(
            stream,
            payload_index(position),
        ),
        payload(stream, payload_index(position))[payload_place(position)] == stream[position],
{
}

/// The commands depend on the samples and on the universe that the mapping
/// gives for the zone, and on nothing else: equal samples under mappings
/// that agree there give equal results, however often they are asked for.
pub proof fn lemma_build_is_repeatable(
    zone: u64,
    samples: Seq<Rgb>,
    first: Map<u64, ZoneTarget>,
    second: Map<u64, ZoneTarget>,
)
    requires
        first.contains_key(zone) == second.contains_key(zone),
        first.contains_key(zone) ==> first[zone].universe == second[zone].universe,
    ensures
        built(zone, samples, first) == built(zone, samples, second),
{
}

/// The adapter never hands out a command that the codec refuses: whatever
/// it builds has a frame.
pub proof fn lemma_built_commands_have_frames(
    zone: u64,
    samples: Seq<Rgb>,
    mapping: Map<u64, ZoneTarget>,
    index: int,
)
    requires
        built(zone, samples, mapping) is Ok,
        0 <= index < built(zone, samples, mapping)->Ok_0.len(),
    ensures
        encoded(built(zone, samples, mapping)->Ok_0[index]) is Ok,
{
    let base = mapping[zone].universe;
    lemma_packet_shape(base, flattened(samples), index);
}

} // verus!

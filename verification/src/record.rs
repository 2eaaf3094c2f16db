//! The binding origins of an action and the records made of them.

use crate::decode::{decode_buffer, decoded_text};
use crate::error::ResolveError;
use vstd::prelude::*;

verus! {

/// What the resolver reports of one bound origin.
#[derive(Clone, Debug, PartialEq, Eq)]
pub struct BindingOriginData {
    pub localized_controller_type: String,
    pub localized_hand: String,
    pub localized_input_source: String,
    pub device_path_name: String,
    pub input_path_name: String,
    pub mode_name: String,
    pub slot_name: String,
    pub input_source_type: String,
}

/// The text of a [`BindingOriginData`].
pub struct BindingOriginText {
    pub localized_controller_type: Seq<char>,
    pub localized_hand: Seq<char>,
    pub localized_input_source: Seq<char>,
    pub device_path_name: Seq<char>,
    pub input_path_name: Seq<char>,
    pub mode_name: Seq<char>,
    pub slot_name: Seq<char>,
    pub input_source_type: Seq<char>,
}

impl View for BindingOriginData {
    type V = BindingOriginText;

    open spec fn view(&self) -> BindingOriginText {
        BindingOriginText {
            localized_controller_type: self.localized_controller_type@,
            localized_hand: self.localized_hand@,
            localized_input_source: self.localized_input_source@,
            device_path_name: self.device_path_name@,
            input_path_name: self.input_path_name@,
            mode_name: self.mode_name@,
            slot_name: self.slot_name@,
            input_source_type: self.input_source_type@,
        }
    }
}

impl DeepView for BindingOriginData {
    type V = BindingOriginText;

    open spec fn deep_view(&self) -> BindingOriginText {
        self@
    }
}

/// The binding information of one origin as the runtime hands it out: five
/// fixed-capacity, NUL-terminated text buffers.
#[derive(Clone, Debug, PartialEq, Eq)]
pub struct RawBindingInfo {
    pub device_path_name: Vec<u8>,
    pub input_path_name: Vec<u8>,
    pub mode_name: Vec<u8>,
    pub slot_name: Vec<u8>,
    pub input_source_type: Vec<u8>,
}

/// The bytes of a [`RawBindingInfo`].
pub struct RawBindingBytes {
    pub device_path_name: Seq<u8>,
    pub input_path_name: Seq<u8>,
    pub mode_name: Seq<u8>,
    pub slot_name: Seq<u8>,
    pub input_source_type: Seq<u8>,
}

impl View for RawBindingInfo {
    type V = RawBindingBytes;

    open spec fn view(&self) -> RawBindingBytes {
        RawBindingBytes {
            device_path_name: self.device_path_name@,
            input_path_name: self.input_path_name@,
            mode_name: self.mode_name@,
            slot_name: self.slot_name@,
            input_source_type: self.input_source_type@,
        }
    }
}

impl DeepView for RawBindingInfo {
    type V = RawBindingBytes;

    open spec fn deep_view(&self) -> RawBindingBytes {
        self@
    }
}

/// The origins that stand for a binding: those that are not zero, in the
/// order of the runtime's list.
pub open spec fn bound_origins(reported: Seq<u64>) -> Seq<u64> {
    reported.filter(is_bound())
}

/// The test that tells a bound origin from the zero that stands for "no
/// binding".
pub open spec fn is_bound() -> spec_fn(u64) -> bool {
    |origin: u64| origin != 0
}

/// Drops the zero origins, which stand for "no binding", and keeps the order
/// of the others.
pub fn filter_origins(reported: &Vec<u64>) -> (origins: Vec<u64>)
    ensures
        origins@ == bound_origins(reported@),
        forall|i: int| 0 <= i < origins@.len() ==> origins@[i] != 0,
{
    let mut origins: Vec<u64> = Vec::new();
    let mut i: usize = 0;
    proof {
        reveal(Seq::filter);
    }
    while i < reported.len()
        invariant
            i <= reported@.len(),
            origins@ == bound_origins(reported@.take(i as int)),
            forall|j: int| 0 <= j < origins@.len() ==> origins@[j] != 0,
        decreases reported@.len() - i,
    {
        proof {
            reveal(Seq::filter);
            assert(reported@.take(i + 1).drop_last() =~= reported@.take(i as int));
        }
        if reported[i] != 0 {
            origins.push(reported[i]);
        }
        i += 1;
    }
    proof {
        assert(reported@.take(i as int) =~= reported@);
    }
    origins
}

/// Whether each of the four lists of metadata has one entry for each of the
/// `count` origins.
pub open spec fn aligned(
    count: nat,
    controller_types: Seq<Seq<char>>,
    hands: Seq<Seq<char>>,
    input_sources: Seq<Seq<char>>,
    binding_infos: Seq<RawBindingBytes>,
) -> bool {
    &&& controller_types.len() == count
    &&& hands.len() == count
    &&& input_sources.len() == count
    &&& binding_infos.len() == count
}

/// Whether all five text buffers of `info` hold valid text.
pub open spec fn decodable(info: RawBindingBytes) -> bool {
    &&& decoded_text(info.device_path_name) is Some
    &&& decoded_text(info.input_path_name) is Some
    &&& decoded_text(info.mode_name) is Some
    &&& decoded_text(info.slot_name) is Some
    &&& decoded_text(info.input_source_type) is Some
}

/// The record of one origin: its three localized names and the decoded text
/// of its binding information.
pub open spec fn record_of(
    controller_type: Seq<char>,
    hand: Seq<char>,
    input_source: Seq<char>,
    info: RawBindingBytes,
) -> BindingOriginText {
    BindingOriginText {
        localized_controller_type: controller_type,
        localized_hand: hand,
        localized_input_source: input_source,
        device_path_name: decoded_text(info.device_path_name).unwrap(),
        input_path_name: decoded_text(info.input_path_name).unwrap(),
        mode_name: decoded_text(info.mode_name).unwrap(),
        slot_name: decoded_text(info.slot_name).unwrap(),
        input_source_type: decoded_text(info.input_source_type).unwrap(),
    }
}

/// What assembling gives: one record for each origin, made of the entries at
/// the origin's position in each of the four lists. Lists of other lengths
/// than the number of origins are refused, and so is a buffer that is not
/// valid text.
pub open spec fn assembled(
    count: nat,
    controller_types: Seq<Seq<char>>,
    hands: Seq<Seq<char>>,
    input_sources: Seq<Seq<char>>,
    binding_infos: Seq<RawBindingBytes>,
) -> Result<Seq<BindingOriginText>, ResolveError> {
    if !aligned(count, controller_types, hands, input_sources, binding_infos) {
        Err(ResolveError::Misaligned)
    } else if exists|i: int| 0 <= i < count && !decodable(#[trigger] binding_infos[i]) {
        Err(ResolveError::DecodeFailed)
    } else {
        Ok(
            Seq::new(
                count,
                |i: int| record_of(controller_types[i], hands[i], input_sources[i], binding_infos[i]),
            ),
        )
    }
}

/// The view of an outcome: the text of the records, or the error.
pub open spec fn outcome_view(outcome: Result<Vec<BindingOriginData>, ResolveError>) -> Result<
    Seq<BindingOriginText>,
    ResolveError,
> {
    match outcome {
        Ok(records) => Ok(records.deep_view()),
        Err(error) => Err(error),
    }
}

/// Builds the record of one origin, unless one of the buffers of `info` is
/// not valid text.
pub fn make_record(
    controller_type: &String,
    hand: &String,
    input_source: &String,
    info: &RawBindingInfo,
) -> (record: Option<BindingOriginData>)
    ensures
        record is Some <==> decodable(info@),
        record matches Some(data) ==> data@ == record_of(
            controller_type@,
            hand@,
            input_source@,
            info@,
        ),
{
    let device_path_name = match decode_buffer(info.device_path_name.as_slice()) {
        Some(text) => text,
        None => { return None; },
    };
    let input_path_name = match decode_buffer(info.input_path_name.as_slice()) {
        Some(text) => text,
        None => { return None; },
    };
    let mode_name = match decode_buffer(info.mode_name.as_slice()) {
        Some(text) => text,
        None => { return None; },
    };
    let slot_name = match decode_buffer(info.slot_name.as_slice()) {
        Some(text) => text,
        None => { return None; },
    };
    let input_source_type = match decode_buffer(info.input_source_type.as_slice()) {
        Some(text) => text,
        None => { return None; },
    };
    Some(
        BindingOriginData {
            localized_controller_type: controller_type.clone(),
            localized_hand: hand.clone(),
            localized_input_source: input_source.clone(),
            device_path_name,
            input_path_name,
            mode_name,
            slot_name,
            input_source_type,
        },
    )
}

/// Assembles the records of `count` origins from the four lists of metadata.
/// The record at a position is made of the entries at that position; nothing
/// is assembled unless every list has `count` entries.
pub fn assemble(
    count: usize,
    controller_types: &Vec<String>,
    hands: &Vec<String>,
    input_sources: &Vec<String>,
    binding_infos: &Vec<RawBindingInfo>,
) -> (outcome: Result<Vec<BindingOriginData>, ResolveError>)
    ensures
        outcome_view(outcome) == assembled(
            count as nat,
            controller_types.deep_view(),
            hands.deep_view(),
            input_sources.deep_view(),
            binding_infos.deep_view(),
        ),
{
    if controller_types.len() != count || hands.len() != count || input_sources.len() != count
        || binding_infos.len() != count {
        return Err(ResolveError::Misaligned);
    }
    let mut records: Vec<BindingOriginData> = Vec::new();
    let mut i: usize = 0;
    while i < count
        invariant
            i <= count,
            controller_types@.len() == count,
            hands@.len() == count,
            input_sources@.len() == count,
            binding_infos@.len() == count,
            records@.len() == i,
            forall|j: int| 0 <= j < i ==> decodable(#[trigger] binding_infos.deep_view()[j]),
            forall|j: int|
                0 <= j < i ==> (#[trigger] records@[j])@ == record_of(
                    controller_types.deep_view()[j],
                    hands.deep_view()[j],
                    input_sources.deep_view()[j],
                    binding_infos.deep_view()[j],
                ),
        decreases count - i,
    {
        match make_record(&controller_types[i], &hands[i], &input_sources[i], &binding_infos[i]) {
            Some(record) => {
                records.push(record);
            },
            None => {
                assert(!decodable(binding_infos.deep_view()[i as int]));
                return Err(ResolveError::DecodeFailed);
            },
        }
        i += 1;
    }
    assert(records.deep_view() =~= assembled(
        count as nat,
        controller_types.deep_view(),
        hands.deep_view(),
        input_sources.deep_view(),
        binding_infos.deep_view(),
    )->Ok_0);
    Ok(records)
}

} // verus!

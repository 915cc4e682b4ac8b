//! The record of nexus and child state that is stored on every child, and
//! its payload encoding.
//!
//! A record is written down as a nested tuple of plain values, which is
//! handed to MessagePack. Reading goes the other way and checks the tags on
//! the way back.

use rmp_serde::decode::Error as DecodeError;
use rmp_serde::encode::Error as EncodeError;
use vstd::prelude::*;

verus! {

/// What can go wrong while metadata is stored or loaded.
#[derive(Debug, Clone, Copy, PartialEq, Eq, Structural)]
pub enum Error {
    /// An aligned buffer for the transfer could not be had.
    DmaAllocationFailed,
    /// The envelope is larger than the metadata partition.
    NoSpace,
    /// The device has bad or unsupported partitions.
    BadPartitions,
    /// The payload could not be encoded.
    EncodeFailed,
    /// The payload could not be decoded.
    DecodeFailed,
    /// The magic, the version, a length or the trailing copy of the header
    /// is wrong.
    InvalidHeader,
    /// The payload does not have the checksum that the header records.
    ChecksumMismatch,
    /// The device failed to read or write.
    IoFailed,
    /// The transfer was abandoned before it completed.
    Canceled,
}

impl Error {
    /// A short description of the error.
    pub fn description(&self) -> (text: &'static str)
        ensures
            text@ == match *self {
                Error::DmaAllocationFailed => "DMA buffer allocation failed"@,
                Error::NoSpace => "No space on metadata partition"@,
                Error::BadPartitions => "Device has bad or unsupported partitions"@,
                Error::EncodeFailed => "Encode failed"@,
                Error::DecodeFailed => "Decode failed"@,
                Error::InvalidHeader => "Invalid header"@,
                Error::ChecksumMismatch => "Checksum mismatch"@,
                Error::IoFailed => "I/O failed"@,
                Error::Canceled => "Operation canceled"@,
            },
    {
        match self {
            Error::DmaAllocationFailed => "DMA buffer allocation failed",
            Error::NoSpace => "No space on metadata partition",
            Error::BadPartitions => "Device has bad or unsupported partitions",
            Error::EncodeFailed => "Encode failed",
            Error::DecodeFailed => "Decode failed",
            Error::InvalidHeader => "Invalid header",
            Error::ChecksumMismatch => "Checksum mismatch",
            Error::IoFailed => "I/O failed",
            Error::Canceled => "Operation canceled",
        }
    }
}

/// The state of a nexus or of a child as it is persisted.
#[derive(Debug, Clone, Copy, PartialEq, Eq, Structural)]
pub enum State {
    /// In use and consistent.
    Open,
    /// Closed in good order.
    Closed,
    /// Failed.
    Faulted,
    /// Caught in between: a record in this state is a witness of an unclean
    /// shutdown.
    Dirty,
}

impl State {
    /// The number that stands for the state in a payload.
    pub open spec fn code(self) -> u8 {
        match self {
            State::Open => 0,
            State::Closed => 1,
            State::Faulted => 2,
            State::Dirty => 3,
        }
    }

    /// The state that `code` stands for, if any.
    pub open spec fn of_code(code: u8) -> Option<State> {
        if code == 0 {
            Some(State::Open)
        } else if code == 1 {
            Some(State::Closed)
        } else if code == 2 {
            Some(State::Faulted)
        } else if code == 3 {
            Some(State::Dirty)
        } else {
            None
        }
    }

    /// A state that is persisted as `self` may next be persisted as `next`:
    /// any state may become dirty, a dirty one open or faulted, and an open
    /// one closed or faulted.
    pub open spec fn may_become(self, next: State) -> bool {
        match (self, next) {
            (_, State::Dirty) => true,
            (State::Dirty, State::Open) => true,
            (State::Open, State::Closed) => true,
            (State::Open, State::Faulted) => true,
            (State::Dirty, State::Faulted) => true,
            _ => false,
        }
    }

    /// Tells whether a state that is persisted as `self` may next be
    /// persisted as `next`.
    pub fn can_become(&self, next: State) -> (may: bool)
        ensures
            may == self.may_become(next),
    {
        match (*self, next) {
            (_, State::Dirty) => true,
            (State::Dirty, State::Open) => true,
            (State::Open, State::Closed) => true,
            (State::Open, State::Faulted) => true,
            (State::Dirty, State::Faulted) => true,
            _ => false,
        }
    }

    /// Returns the number that stands for the state in a payload.
    pub fn to_code(&self) -> (code: u8)
        ensures
            code == self.code(),
            State::of_code(code) == Some(*self),
    {
        match self {
            State::Open => 0,
            State::Closed => 1,
            State::Faulted => 2,
            State::Dirty => 3,
        }
    }

    /// Returns the state that `code` stands for, if any.
    pub fn from_code(code: u8) -> (state: Option<State>)
        ensures
            state == State::of_code(code),
            state matches Some(s) ==> s.code() == code,
    {
        match code {
            0 => Some(State::Open),
            1 => Some(State::Closed),
            2 => Some(State::Faulted),
            3 => Some(State::Dirty),
            _ => None,
        }
    }
}

/// A point in time: seconds since the start of 1970 in UTC, and the
/// nanoseconds into that second.
#[derive(Debug, Clone, Copy, PartialEq, Eq, PartialOrd, Ord, Hash, Structural)]
pub struct Timestamp {
    pub secs: i64,
    pub nanos: u32,
}

impl Timestamp {
    /// `self` is a later point in time than `other`.
    pub open spec fn later_than(self, other: Timestamp) -> bool {
        self.secs > other.secs || (self.secs == other.secs && self.nanos > other.nanos)
    }

    /// Tells whether `self` is a later point in time than `other`.
    pub fn is_later_than(&self, other: &Timestamp) -> (later: bool)
        ensures
            later == self.later_than(*other),
    {
        self.secs > other.secs || (self.secs == other.secs && self.nanos > other.nanos)
    }
}

/// Of two different points in time exactly one is the later one, and no
/// point is later than itself.
pub proof fn lemma_later_than_is_total_order(a: Timestamp, b: Timestamp, c: Timestamp)
    ensures
        !a.later_than(a),
        a != b ==> (a.later_than(b) <==> !b.later_than(a)),
        a.later_than(b) && b.later_than(c) ==> a.later_than(c),
{
}

/// The persisted state of one child.
#[derive(Debug, Clone, PartialEq, Eq)]
pub struct Child {
    pub timestamp: Timestamp,
    pub state: State,
    pub name: String,
    pub device_name: Option<String>,
    pub device_uuid: Option<String>,
}

/// The persisted state of a nexus and of its children, in their order.
#[derive(Debug, Clone, PartialEq, Eq)]
pub struct Nexus {
    pub timestamp: Timestamp,
    pub state: State,
    pub name: String,
    pub nexus_uuid: String,
    pub bdev_uuid: String,
    pub requested_size: u64,
    pub children: Vec<Child>,
}

/// A metadata record in one of its versions, or the lack of one.
#[derive(Debug, Clone, PartialEq, Eq)]
pub enum Metadata {
    /// No metadata is present, or none that could be read.
    Absent,
    /// The first version of the record.
    V1(Nexus),
}

/// The view of an optional string.
pub open spec fn opt_text(text: Option<String>) -> Option<Seq<char>> {
    match text {
        Some(s) => Some(s@),
        None => None,
    }
}

/// What a [`Child`] holds.
pub struct ChildView {
    pub timestamp: Timestamp,
    pub state: State,
    pub name: Seq<char>,
    pub device_name: Option<Seq<char>>,
    pub device_uuid: Option<Seq<char>>,
}

/// What a [`Nexus`] holds.
pub struct NexusView {
    pub timestamp: Timestamp,
    pub state: State,
    pub name: Seq<char>,
    pub nexus_uuid: Seq<char>,
    pub bdev_uuid: Seq<char>,
    pub requested_size: u64,
    pub children: Seq<ChildView>,
}

/// What a [`Metadata`] holds.
pub enum MetadataView {
    Absent,
    V1(NexusView),
}

impl View for Child {
    type V = ChildView;

    open spec fn view(&self) -> ChildView {
        ChildView {
            timestamp: self.timestamp,
            state: self.state,
            name: self.name@,
            device_name: opt_text(self.device_name),
            device_uuid: opt_text(self.device_uuid),
        }
    }
}

impl View for Nexus {
    type V = NexusView;

    open spec fn view(&self) -> NexusView {
        NexusView {
            timestamp: self.timestamp,
            state: self.state,
            name: self.name@,
            nexus_uuid: self.nexus_uuid@,
            bdev_uuid: self.bdev_uuid@,
            requested_size: self.requested_size,
            children: self.children@.map_values(|c: Child| c@),
        }
    }
}

impl View for Metadata {
    type V = MetadataView;

    open spec fn view(&self) -> MetadataView {
        match self {
            Metadata::Absent => MetadataView::Absent,
            Metadata::V1(nexus) => MetadataView::V1(nexus@),
        }
    }
}

/// A child as it goes into a payload: seconds and nanoseconds of the
/// timestamp, the state's number, the name, the device's name and UUID.
pub type ChildTuple = (i64, u32, u8, String, Option<String>, Option<String>);

/// A nexus as it goes into a payload: seconds and nanoseconds of the
/// timestamp, the state's number, the name, the nexus UUID, the bdev UUID,
/// the requested size and the children.
pub type NexusTuple = (i64, u32, u8, String, String, String, u64, Vec<ChildTuple>);

/// A record as it goes into a payload: the version's number, 0 for a lack
/// of metadata, and the nexus where there is one.
pub type PayloadTuple = (u8, Option<NexusTuple>);

/// What a [`ChildTuple`] holds.
pub type ChildModel = (i64, u32, u8, Seq<char>, Option<Seq<char>>, Option<Seq<char>>);

/// What a [`NexusTuple`] holds.
pub type NexusModel = (i64, u32, u8, Seq<char>, Seq<char>, Seq<char>, u64, Seq<ChildModel>);

/// What a [`PayloadTuple`] holds.
pub type PayloadModel = (u8, Option<NexusModel>);

/// The number that stands for the first version of the record.
pub const VERSION_V1: u8 = 1;

/// The number that stands for a lack of metadata.
pub const VERSION_ABSENT: u8 = 0;

/// The tuple that stands for a child.
pub open spec fn child_model(child: ChildView) -> ChildModel {
    (
        child.timestamp.secs,
        child.timestamp.nanos,
        child.state.code(),
        child.name,
        child.device_name,
        child.device_uuid,
    )
}

/// The tuple that stands for a nexus.
pub open spec fn nexus_model(nexus: NexusView) -> NexusModel {
    (
        nexus.timestamp.secs,
        nexus.timestamp.nanos,
        nexus.state.code(),
        nexus.name,
        nexus.nexus_uuid,
        nexus.bdev_uuid,
        nexus.requested_size,
        nexus.children.map_values(|c: ChildView| child_model(c)),
    )
}

/// The tuple that stands for a record.
pub open spec fn payload_model(md: MetadataView) -> PayloadModel {
    match md {
        MetadataView::Absent => (VERSION_ABSENT, None),
        MetadataView::V1(nexus) => (VERSION_V1, Some(nexus_model(nexus))),
    }
}

/// The child that a tuple stands for: any tuple whose state number is known.
pub open spec fn child_of_model(model: ChildModel) -> Option<ChildView> {
    match State::of_code(model.2) {
        Some(state) => Some(
            ChildView {
                timestamp: Timestamp { secs: model.0, nanos: model.1 },
                state,
                name: model.3,
                device_name: model.4,
                device_uuid: model.5,
            },
        ),
        None => None,
    }
}

/// The nexus that a tuple stands for: any tuple whose state number and
/// whose children's state numbers are known.
pub open spec fn nexus_of_model(model: NexusModel) -> Option<NexusView> {
    if State::of_code(model.2) is Some && forall|i: int|
        0 <= i < model.7.len() ==> (#[trigger] child_of_model(model.7[i])) is Some {
        Some(
            NexusView {
                timestamp: Timestamp { secs: model.0, nanos: model.1 },
                state: State::of_code(model.2)->0,
                name: model.3,
                nexus_uuid: model.4,
                bdev_uuid: model.5,
                requested_size: model.6,
                children: model.7.map_values(|c: ChildModel| child_of_model(c)->0),
            },
        )
    } else {
        None
    }
}

/// The record that a tuple stands for: version 0 without a nexus, or
/// version 1 with a nexus whose state numbers are known.
pub open spec fn metadata_of_model(model: PayloadModel) -> Option<MetadataView> {
    match model.1 {
        None => if model.0 == VERSION_ABSENT {
            Some(MetadataView::Absent)
        } else {
            None
        },
        Some(nexus) => if model.0 == VERSION_V1 {
            match nexus_of_model(nexus) {
                Some(n) => Some(MetadataView::V1(n)),
                None => None,
            }
        } else {
            None
        },
    }
}

/// The tuple of a record stands for that record: nothing is lost on the way
/// into a payload and back.
pub proof fn lemma_model_round_trip(md: MetadataView)
    ensures
        metadata_of_model(payload_model(md)) == Some(md),
{
    match md {
        MetadataView::Absent => {},
        MetadataView::V1(nexus) => {
            let model = nexus_model(nexus);
            assert forall|i: int| 0 <= i < model.7.len() implies (#[trigger] child_of_model(
                model.7[i],
            )) == Some(nexus.children[i]) by {
                lemma_child_model_round_trip(nexus.children[i]);
            }
            assert(model.7.map_values(|c: ChildModel| child_of_model(c)->0) =~= nexus.children);
            lemma_state_code_round_trip(nexus.state);
        },
    }
}

/// A state's number stands for that state.
pub proof fn lemma_state_code_round_trip(state: State)
    ensures
        State::of_code(state.code()) == Some(state),
{
}

/// The tuple of a child stands for that child.
pub proof fn lemma_child_model_round_trip(child: ChildView)
    ensures
        child_of_model(child_model(child)) == Some(child),
{
    lemma_state_code_round_trip(child.state);
}

/// Copies an optional string.
fn clone_text(text: &Option<String>) -> (copy: Option<String>)
    ensures
        copy == *text,
{
    match text {
        Some(s) => Some(s.clone()),
        None => None,
    }
}

impl Child {
    /// Writes the child down as a tuple.
    pub fn to_tuple(&self) -> (tuple: ChildTuple)
        ensures
            tuple.deep_view() == child_model(self@),
    {
        (
            self.timestamp.secs,
            self.timestamp.nanos,
            self.state.to_code(),
            self.name.clone(),
            clone_text(&self.device_name),
            clone_text(&self.device_uuid),
        )
    }

    /// Reads a child from a tuple. `None` where the state's number is not
    /// known.
    pub fn from_tuple(tuple: &ChildTuple) -> (child: Option<Child>)
        ensures
            match child {
                Some(c) => child_of_model(tuple.deep_view()) == Some(c@),
                None => child_of_model(tuple.deep_view()) is None,
            },
    {
        match State::from_code(tuple.2) {
            Some(state) => Some(
                Child {
                    timestamp: Timestamp { secs: tuple.0, nanos: tuple.1 },
                    state,
                    name: tuple.3.clone(),
                    device_name: clone_text(&tuple.4),
                    device_uuid: clone_text(&tuple.5),
                },
            ),
            None => None,
        }
    }
}

impl Nexus {
    /// Writes the nexus down as a tuple.
    pub fn to_tuple(&self) -> (tuple: NexusTuple)
        ensures
            tuple.deep_view() == nexus_model(self@),
    {
        let mut children: Vec<ChildTuple> = Vec::new();
        let mut i: usize = 0;
        while i < self.children.len()
            invariant
                i <= self.children.len(),
                children.len() == i,
                forall|k: int|
                    0 <= k < i ==> (#[trigger] children@[k]).deep_view() == child_model(
                        self.children@[k]@,
                    ),
            decreases self.children.len() - i,
        {
            children.push(self.children[i].to_tuple());
            i += 1;
        }
        let tuple = (
            self.timestamp.secs,
            self.timestamp.nanos,
            self.state.to_code(),
            self.name.clone(),
            self.nexus_uuid.clone(),
            self.bdev_uuid.clone(),
            self.requested_size,
            children,
        );
        proof {
            assert(tuple.7.deep_view() =~= nexus_model(self@).7);
        }
        tuple
    }

    /// Reads a nexus from a tuple. `None` where the number of its state, or
    /// of the state of one of its children, is not known.
    pub fn from_tuple(tuple: &NexusTuple) -> (nexus: Option<Nexus>)
        ensures
            match nexus {
                Some(n) => nexus_of_model(tuple.deep_view()) == Some(n@),
                None => nexus_of_model(tuple.deep_view()) is None,
            },
    {
        let ghost model = tuple.deep_view();
        let state = match State::from_code(tuple.2) {
            Some(state) => state,
            None => {
                return None;
            },
        };
        let mut children: Vec<Child> = Vec::new();
        let mut i: usize = 0;
        while i < tuple.7.len()
            invariant
                i <= tuple.7.len(),
                children.len() == i,
                model == tuple.deep_view(),
                forall|k: int|
                    0 <= k < i ==> child_of_model(#[trigger] model.7[k]) == Some(children@[k]@),
            decreases tuple.7.len() - i,
        {
            match Child::from_tuple(&tuple.7[i]) {
                Some(child) => {
                    children.push(child);
                },
                None => {
                    proof {
                        assert(child_of_model(model.7[i as int]) is None);
                    }
                    return None;
                },
            }
            i += 1;
        }
        let nexus = Nexus {
            timestamp: Timestamp { secs: tuple.0, nanos: tuple.1 },
            state,
            name: tuple.3.clone(),
            nexus_uuid: tuple.4.clone(),
            bdev_uuid: tuple.5.clone(),
            requested_size: tuple.6,
            children,
        };
        proof {
            assert(nexus@.children =~= model.7.map_values(|c: ChildModel| child_of_model(c)->0));
        }
        Some(nexus)
    }
}

impl Metadata {
    /// Writes the record down as a tuple.
    pub fn to_tuple(&self) -> (tuple: PayloadTuple)
        ensures
            tuple.deep_view() == payload_model(self@),
    {
        match self {
            Metadata::Absent => (VERSION_ABSENT, None),
            Metadata::V1(nexus) => (VERSION_V1, Some(nexus.to_tuple())),
        }
    }

    /// Reads a record from a tuple. Fails with `DecodeFailed` where the
    /// tuple stands for no record.
    pub fn from_tuple(tuple: &PayloadTuple) -> (md: Result<Metadata, Error>)
        ensures
            match md {
                Ok(m) => metadata_of_model(tuple.deep_view()) == Some(m@),
                Err(e) => e == Error::DecodeFailed && metadata_of_model(tuple.deep_view()) is None,
            },
    {
        match &tuple.1 {
            None => if tuple.0 == VERSION_ABSENT {
                Ok(Metadata::Absent)
            } else {
                Err(Error::DecodeFailed)
            },
            Some(nexus) => if tuple.0 == VERSION_V1 {
                match Nexus::from_tuple(nexus) {
                    Some(n) => Ok(Metadata::V1(n)),
                    None => Err(Error::DecodeFailed),
                }
            } else {
                Err(Error::DecodeFailed)
            },
        }
    }
}

/// The error of `rmp_serde`'s encoder.
#[verifier::external_type_specification]
#[verifier::external_body]
pub struct ExEncodeError(EncodeError);

/// The error of `rmp_serde`'s decoder.
#[verifier::external_type_specification]
#[verifier::external_body]
pub struct ExDecodeError(DecodeError);

/// The bytes that `rmp_serde::to_vec` gives for a tuple, or `None` where it
/// fails on that tuple.
pub uninterp spec fn msgpack_encoding(value: PayloadModel) -> Option<Seq<u8>>;

/// The tuple that `rmp_serde::from_slice` reads from the bytes, or `None`
/// where it fails on them.
pub uninterp spec fn msgpack_decoding(bytes: Seq<u8>) -> Option<PayloadModel>;

/// `rmp_serde::to_vec` on a payload tuple. The bytes that come back, or the
/// failure, depend on what the tuple holds and on nothing else.
#[verifier::external_body]
fn msgpack_encode(value: &PayloadTuple) -> (bytes: Result<Vec<u8>, EncodeError>)
    ensures
        match bytes {
            Ok(b) => msgpack_encoding(value.deep_view()) == Some(b@),
            Err(_) => msgpack_encoding(value.deep_view()) is None,
        },
{
    rmp_serde::to_vec(value)
}

/// `rmp_serde::from_slice` for a payload tuple. The tuple that comes back,
/// or the failure, depends on the bytes and on nothing else.
#[verifier::external_body]
fn msgpack_decode(bytes: &[u8]) -> (value: Result<PayloadTuple, DecodeError>)
    ensures
        match value {
            Ok(v) => msgpack_decoding(bytes@) == Some(v.deep_view()),
            Err(_) => msgpack_decoding(bytes@) is None,
        },
{
    rmp_serde::from_slice(bytes)
}

/// The payload of a record: the MessagePack encoding of its tuple.
pub open spec fn encoded(md: MetadataView) -> Option<Seq<u8>> {
    msgpack_encoding(payload_model(md))
}

/// The record of a payload: the one that the decoded tuple stands for.
pub open spec fn decoded(bytes: Seq<u8>) -> Option<MetadataView> {
    match msgpack_decoding(bytes) {
        Some(model) => metadata_of_model(model),
        None => None,
    }
}

impl Metadata {
    /// Encodes the record as a payload. Fails with `EncodeFailed` where the
    /// encoder does.
    pub fn encode(&self) -> (bytes: Result<Vec<u8>, Error>)
        ensures
            match bytes {
                Ok(b) => encoded(self@) == Some(b@),
                Err(e) => e == Error::EncodeFailed && encoded(self@) is None,
            },
    {
        let tuple = self.to_tuple();
        match msgpack_encode(&tuple) {
            Ok(bytes) => Ok(bytes),
            Err(_) => Err(Error::EncodeFailed),
        }
    }

    /// Decodes a payload. Fails with `DecodeFailed` where the decoder does,
    /// or where the tuple it read stands for no record.
    pub fn decode(src: &[u8]) -> (md: Result<Metadata, Error>)
        ensures
            match md {
                Ok(m) => decoded(src@) == Some(m@),
                Err(e) => e == Error::DecodeFailed && decoded(src@) is None,
            },
    {
        match msgpack_decode(src) {
            Ok(tuple) => Metadata::from_tuple(&tuple),
            Err(_) => Err(Error::DecodeFailed),
        }
    }
}

} // verus!

//! The report frame: its fields, its layout on the wire, and a builder for
//! requests.
//!
//! A frame is four header bytes and a payload. Byte 0 is the tag of the
//! report type, byte 1 the device index, byte 2 the runtime index of the
//! feature, byte 3 the function index in its upper half and the software
//! identifier in its lower half. The report type fixes the length of the
//! whole frame.
use vstd::prelude::*;

use crate::error::{outcome_view, Error, ErrorView};
use crate::feature::Function;
use crate::hexdump::{dump, hexdump};
use vstd::slice::slice_to_vec;

verus! {

/// The three sizes of report.
#[derive(Clone, Copy, Debug, PartialEq, Eq, Hash, Structural)]
pub enum ReportId {
    Short,
    Long,
    VeryLong,
}

impl ReportId {
    /// The tag that stands for the report type in byte 0 of a frame.
    pub open spec fn tag(self) -> u8 {
        match self {
            ReportId::Short => 0x10,
            ReportId::Long => 0x11,
            ReportId::VeryLong => 0x12,
        }
    }

    /// The report type that a tag stands for, if any.
    pub open spec fn of(tag: u8) -> Option<ReportId> {
        if tag == 0x10 {
            Some(ReportId::Short)
        } else if tag == 0x11 {
            Some(ReportId::Long)
        } else if tag == 0x12 {
            Some(ReportId::VeryLong)
        } else {
            None
        }
    }

    /// The length in bytes of a whole frame of this type.
    pub open spec fn frame_len(self) -> nat {
        match self {
            ReportId::Short => 7,
            ReportId::Long => 20,
            ReportId::VeryLong => 64,
        }
    }

    /// The tag of the report type.
    pub fn to_u8(&self) -> (tag: u8)
        ensures
            tag == self.tag(),
    {
        match self {
            ReportId::Short => 0x10,
            ReportId::Long => 0x11,
            ReportId::VeryLong => 0x12,
        }
    }

    /// The report type of a tag; `None` for a byte that is no tag.
    pub fn from_u8(tag: u8) -> (report_id: Option<ReportId>)
        ensures
            report_id == Self::of(tag),
    {
        match tag {
            0x10 => Some(ReportId::Short),
            0x11 => Some(ReportId::Long),
            0x12 => Some(ReportId::VeryLong),
            _ => None,
        }
    }

    /// The length of a frame of this type.
    pub fn frame_length(&self) -> (length: usize)
        ensures
            length == self.frame_len(),
    {
        match self {
            ReportId::Short => 7,
            ReportId::Long => 20,
            ReportId::VeryLong => 64,
        }
    }
}

/// One report, decoded.
#[derive(Clone, Debug, PartialEq, Eq)]
pub struct Message {
    report_id: ReportId,
    device_index: u8,
    feature_index: u8,
    function_index: u8,
    software_id: u8,
    data: Vec<u8>,
}

/// A request under construction. It starts from the defaults of a short
/// report and is turned into a [`Message`] by [`MessageBuilder::build`].
#[derive(Clone, Debug, PartialEq, Eq)]
pub struct MessageBuilder {
    report_id: ReportId,
    device_index: u8,
    feature_index: u8,
    function_index: u8,
    software_id: u8,
    data: Vec<u8>,
}

/// The fields of a report as contracts speak of them.
pub struct MessageView {
    pub report_id: ReportId,
    pub device_index: u8,
    pub feature_index: u8,
    pub function_index: u8,
    pub software_id: u8,
    pub data: Seq<u8>,
}

impl View for Message {
    type V = MessageView;

    closed spec fn view(&self) -> MessageView {
        MessageView {
            report_id: self.report_id,
            device_index: self.device_index,
            feature_index: self.feature_index,
            function_index: self.function_index,
            software_id: self.software_id,
            data: self.data@,
        }
    }
}

impl View for MessageBuilder {
    type V = MessageView;

    closed spec fn view(&self) -> MessageView {
        MessageView {
            report_id: self.report_id,
            device_index: self.device_index,
            feature_index: self.feature_index,
            function_index: self.function_index,
            software_id: self.software_id,
            data: self.data@,
        }
    }
}

/// The device index of a request to a device that is not yet known.
pub const UNKNOWN_DEVICE: u8 = 0xff;

/// The software identifier that a request carries unless told otherwise.
pub const DEFAULT_SOFTWARE_ID: u8 = 0x01;

/// The number of header bytes before the payload.
pub const HEADER_LEN: usize = 4;

/// Byte 3 of a frame: the function index in the upper four bits, the
/// software identifier in the lower four. Bits of either that do not fit are
/// dropped.
pub open spec fn pack(function_index: u8, software_id: u8) -> u8 {
    (function_index << 4) | (software_id & 0x0F)
}

/// The first `length` bytes of `data`, with zeros where `data` has none.
pub open spec fn padded(data: Seq<u8>, length: nat) -> Seq<u8> {
    Seq::new(
        length,
        |i: int|
            if i < data.len() {
                data[i]
            } else {
                0u8
            },
    )
}

/// The two bytes of `value`, the more significant one first.
pub open spec fn be_bytes(value: u16) -> Seq<u8> {
    seq![(value / 256) as u8, (value % 256) as u8]
}

/// The frame that carries `message`: the header, then the payload cut or
/// zero-padded to what is left of the frame's length.
pub open spec fn encoding(message: MessageView) -> Seq<u8> {
    seq![
        message.report_id.tag(),
        message.device_index,
        message.feature_index,
        pack(message.function_index, message.software_id),
    ] + padded(message.data, (message.report_id.frame_len() - HEADER_LEN) as nat)
}

/// The report that `bytes` carry. Bytes that are empty or of another length
/// than their report type demands have [`ErrorView::FrameLength`]; a first
/// byte that is no tag has [`ErrorView::UnknownReportId`].
pub open spec fn decoding(bytes: Seq<u8>) -> Result<MessageView, ErrorView> {
    if bytes.len() == 0 {
        Err(ErrorView::FrameLength { length: 0 })
    } else {
        match ReportId::of(bytes[0]) {
            None => Err(ErrorView::UnknownReportId { tag: bytes[0] }),
            Some(report_id) => if bytes.len() != report_id.frame_len() {
                Err(ErrorView::FrameLength { length: bytes.len() })
            } else {
                Ok(
                    MessageView {
                        report_id,
                        device_index: bytes[1],
                        feature_index: bytes[2],
                        function_index: bytes[3] >> 4,
                        software_id: bytes[3] & 0x0F,
                        data: bytes.skip(HEADER_LEN as int),
                    },
                )
            },
        }
    }
}

/// The request that a builder with fields `builder` builds: the same fields,
/// the payload cut or zero-padded to three bytes.
pub open spec fn built(builder: MessageView) -> MessageView {
    MessageView { data: padded(builder.data, 3), ..builder }
}

impl Message {
    /// Encodes the report as a frame of the length of its report type.
    pub fn encode(&self) -> (bytes: Vec<u8>)
        ensures
            bytes@ == encoding(self@),
    {
        let mut bytes: Vec<u8> = Vec::new();
        bytes.push(self.report_id.to_u8());
        bytes.push(self.device_index);
        bytes.push(self.feature_index);
        bytes.push((self.function_index << 4) | (self.software_id & 0x0F));
        let length: usize = self.report_id.frame_length() - HEADER_LEN;
        let ghost header = bytes@;
        let mut i: usize = 0;
        while i < length
            invariant
                i <= length,
                bytes@ == header + padded(self.data@, i as nat),
            decreases length - i,
        {
            let byte: u8 = if i < self.data.len() {
                self.data[i]
            } else {
                0
            };
            bytes.push(byte);
            i += 1;
            assert(bytes@ =~= header + padded(self.data@, i as nat));
        }
        assert(bytes@ =~= encoding(self@));
        bytes
    }

    /// Decodes a frame. The frame must be as long as the report type in its
    /// first byte demands.
    pub fn try_from(buf: Vec<u8>) -> (result: Result<Message, Error>)
        ensures
            outcome_view(result) == decoding(buf@),
    {
        if buf.len() == 0 {
            return Err(Error::FrameLength { length: 0 });
        }
        let report_id = match ReportId::from_u8(buf[0]) {
            Some(report_id) => report_id,
            None => {
                return Err(Error::UnknownReportId { tag: buf[0] });
            },
        };
        if buf.len() != report_id.frame_length() {
            return Err(Error::FrameLength { length: buf.len() });
        }
        let mut data: Vec<u8> = Vec::new();
        let mut i: usize = HEADER_LEN;
        while i < buf.len()
            invariant
                HEADER_LEN <= i <= buf.len(),
                data@ == buf@.subrange(HEADER_LEN as int, i as int),
            decreases buf.len() - i,
        {
            data.push(buf[i]);
            i += 1;
            assert(data@ =~= buf@.subrange(HEADER_LEN as int, i as int));
        }
        assert(data@ =~= buf@.skip(HEADER_LEN as int));
        Ok(
            Message {
                report_id,
                device_index: buf[1],
                feature_index: buf[2],
                function_index: buf[3] >> 4,
                software_id: buf[3] & 0x0F,
                data,
            },
        )
    }

    /// The payload as a dump in chunks of four bytes.
    pub fn dump(&self) -> (text: String)
        ensures
            text@ == dump(self@.data, 4),
    {
        hexdump(slice_to_vec(self.data.as_slice()), 4)
    }

    /// The report type.
    pub fn report_id(&self) -> (report_id: ReportId)
        ensures
            report_id == self@.report_id,
    {
        self.report_id
    }

    /// The device index.
    pub fn device_index(&self) -> (device_index: u8)
        ensures
            device_index == self@.device_index,
    {
        self.device_index
    }

    /// The runtime index of the feature addressed.
    pub fn feature_index(&self) -> (feature_index: u8)
        ensures
            feature_index == self@.feature_index,
    {
        self.feature_index
    }

    /// The index of the function called.
    pub fn function_index(&self) -> (function_index: u8)
        ensures
            function_index == self@.function_index,
    {
        self.function_index
    }

    /// The software identifier.
    pub fn software_id(&self) -> (software_id: u8)
        ensures
            software_id == self@.software_id,
    {
        self.software_id
    }

    /// The payload.
    pub fn data(&self) -> (data: &[u8])
        ensures
            data@ == self@.data,
    {
        self.data.as_slice()
    }
}

impl MessageBuilder {
    /// A short request for `function` of the feature at `feature_index`, to a
    /// device not yet known, under the default software identifier and
    /// without payload.
    pub fn new_short(feature_index: u8, function: Function) -> (builder: MessageBuilder)
        ensures
            builder@ == (MessageView {
                report_id: ReportId::Short,
                device_index: UNKNOWN_DEVICE,
                feature_index,
                function_index: function.opcode(),
                software_id: DEFAULT_SOFTWARE_ID,
                data: Seq::<u8>::empty(),
            }),
    {
        MessageBuilder {
            report_id: ReportId::Short,
            device_index: UNKNOWN_DEVICE,
            feature_index,
            function_index: function.value(),
            software_id: DEFAULT_SOFTWARE_ID,
            data: Vec::new(),
        }
    }

    /// Sets the report type.
    pub fn report_id(self, report_id: ReportId) -> (builder: MessageBuilder)
        ensures
            builder@ == (MessageView { report_id, ..self@ }),
    {
        let mut builder = self;
        builder.report_id = report_id;
        builder
    }

    /// Sets the device index.
    pub fn device_index(self, device_index: u8) -> (builder: MessageBuilder)
        ensures
            builder@ == (MessageView { device_index, ..self@ }),
    {
        let mut builder = self;
        builder.device_index = device_index;
        builder
    }

    /// Sets the runtime index of the feature addressed.
    pub fn feature_index(self, feature_index: u8) -> (builder: MessageBuilder)
        ensures
            builder@ == (MessageView { feature_index, ..self@ }),
    {
        let mut builder = self;
        builder.feature_index = feature_index;
        builder
    }

    /// Sets the function index.
    pub fn function_index(self, function_index: u8) -> (builder: MessageBuilder)
        ensures
            builder@ == (MessageView { function_index, ..self@ }),
    {
        let mut builder = self;
        builder.function_index = function_index;
        builder
    }

    /// Sets the software identifier.
    pub fn software_id(self, software_id: u8) -> (builder: MessageBuilder)
        ensures
            builder@ == (MessageView { software_id, ..self@ }),
    {
        let mut builder = self;
        builder.software_id = software_id;
        builder
    }

    /// Replaces the payload.
    pub fn data(self, data: Vec<u8>) -> (builder: MessageBuilder)
        ensures
            builder@ == (MessageView { data: data@, ..self@ }),
    {
        let mut builder = self;
        builder.data = data;
        builder
    }

    /// Appends `data` to the payload, the more significant byte first.
    pub fn add_u16(self, data: u16) -> (builder: MessageBuilder)
        ensures
            builder@ == (MessageView { data: self@.data + be_bytes(data), ..self@ }),
    {
        let mut builder = self;
        builder.data.push((data / 256) as u8);
        builder.data.push((data % 256) as u8);
        assert(builder.data@ =~= self@.data + be_bytes(data));
        builder
    }

    /// The request: the fields as set, the payload cut or zero-padded to
    /// three bytes.
    pub fn build(self) -> (message: Message)
        ensures
            message@ == built(self@),
    {
        let mut data: Vec<u8> = Vec::new();
        let mut i: usize = 0;
        while i < 3
            invariant
                i <= 3,
                data@ == padded(self.data@, i as nat),
            decreases 3 - i,
        {
            let byte: u8 = if i < self.data.len() {
                self.data[i]
            } else {
                0
            };
            data.push(byte);
            i += 1;
            assert(data@ =~= padded(self.data@, i as nat));
        }
        Message {
            report_id: self.report_id,
            device_index: self.device_index,
            feature_index: self.feature_index,
            function_index: self.function_index,
            software_id: self.software_id,
            data,
        }
    }
}

/// A frame is as long as its report type demands, whatever the payload of the
/// report: seven bytes for a short report, of which three are payload.
pub proof fn lemma_encoding_len(message: MessageView)
    ensures
        encoding(message).len() == message.report_id.frame_len(),
        encoding(message).skip(HEADER_LEN as int).len() == message.report_id.frame_len()
            - HEADER_LEN,
        message.report_id == ReportId::Short ==> encoding(message).len() == 7,
{
}

/// Decoding a frame and encoding the report again gives back the frame, byte
/// for byte. This holds of every frame that starts with the tag of a report
/// type and is as long as that type demands; a short report of seven bytes is
/// one.
pub proof fn lemma_decode_then_encode(bytes: Seq<u8>)
    requires
        bytes.len() > 0,
        ReportId::of(bytes[0]) matches Some(report_id) && bytes.len() == report_id.frame_len(),
    ensures
        decoding(bytes) is Ok,
        encoding(decoding(bytes)->Ok_0) == bytes,
{
    let message = decoding(bytes)->Ok_0;
    let byte = bytes[3];
    assert(pack(byte >> 4, byte & 0x0F) == byte) by (bit_vector);
    assert(message.report_id.tag() == bytes[0]);
    assert(encoding(message) =~= bytes);
}

/// Encoding a report and decoding the frame gives back every field but the
/// payload, which comes back cut or zero-padded to the room its report type
/// leaves: three bytes in a short report. This holds of every report whose
/// function index and software identifier fit in four bits.
pub proof fn lemma_encode_then_decode(message: MessageView)
    requires
        message.function_index <= 15,
        message.software_id <= 15,
    ensures
        decoding(encoding(message)) == Ok::<MessageView, ErrorView>(
            MessageView {
                data: padded(
                    message.data,
                    (message.report_id.frame_len() - HEADER_LEN) as nat,
                ),
                ..message
            },
        ),
{
    let function_index = message.function_index;
    let software_id = message.software_id;
    assert(pack(function_index, software_id) >> 4 == function_index) by (bit_vector)
        requires
            function_index <= 15,
    ;
    assert(pack(function_index, software_id) & 0x0F == software_id) by (bit_vector)
        requires
            software_id <= 15,
    ;
    let bytes = encoding(message);
    assert(ReportId::of(message.report_id.tag()) == Some(message.report_id));
    assert(bytes.len() == message.report_id.frame_len());
    assert(bytes.skip(HEADER_LEN as int) =~= padded(
        message.data,
        (message.report_id.frame_len() - HEADER_LEN) as nat,
    ));
}

} // verus!

//! Real-time status: `DLE EOT` request and named-flag parse.

use vstd::prelude::*;

use crate::error::StatusError;

verus! {

#[derive(Debug, Clone, Copy, PartialEq, Eq, Structural)]
pub enum StatusRequest {
    Printer,
    OfflineCause,
    ErrorCause,
    RollPaper,
}

impl StatusRequest {
    pub open spec fn spec_params(self) -> (u8, Option<u8>) {
        match self {
            StatusRequest::Printer => (1, None),
            StatusRequest::OfflineCause => (2, None),
            StatusRequest::ErrorCause => (3, None),
            StatusRequest::RollPaper => (4, None),
        }
    }

    /// `DLE EOT n [a]` parameters.
    pub fn params(self) -> (p: (u8, Option<u8>))
        ensures
            p == self.spec_params(),
    {
        match self {
            StatusRequest::Printer => (1, None),
            StatusRequest::OfflineCause => (2, None),
            StatusRequest::ErrorCause => (3, None),
            StatusRequest::RollPaper => (4, None),
        }
    }
}

pub open spec fn spec_request_bytes(request: StatusRequest) -> Seq<u8> {
    let (n, a) = request.spec_params();
    match a {
        Some(a) => seq![0x10u8, 0x04u8, n, a],
        None => seq![0x10u8, 0x04u8, n],
    }
}

/// `DLE EOT n` for one status request.
pub fn encode_request(request: StatusRequest) -> (cmd: Vec<u8>)
    ensures
        cmd@ == spec_request_bytes(request),
{
    let (n, a) = request.params();
    let mut cmd: Vec<u8> = Vec::new();
    cmd.push(0x10);
    cmd.push(0x04);
    cmd.push(n);
    if let Some(a) = a {
        cmd.push(a);
    }
    assert(cmd@ =~= spec_request_bytes(request));
    cmd
}

/// `DLE ENQ 2` — recover from a recoverable error and clear buffers.
pub fn encode_recover() -> (b: [u8; 3])
    ensures
        b@ == seq![0x10u8, 0x05u8, 2u8],
{
    [0x10, 0x05, 2]
}

pub open spec fn spec_bit(byte: u8, n: u8) -> bool {
    (byte >> n) & 1 == 1
}

fn bit(byte: u8, n: u8) -> (b: bool)
    requires
        n < 8,
    ensures
        b == spec_bit(byte, n),
{
    (byte >> n) & 1 == 1
}

/// Bits 0 and 7 clear, bits 1 and 4 set: the fixed frame of every status byte.
pub open spec fn spec_pattern_ok(byte: u8) -> bool {
    !spec_bit(byte, 0) && spec_bit(byte, 1) && spec_bit(byte, 4) && !spec_bit(byte, 7)
}

fn pattern_ok(byte: u8) -> (b: bool)
    ensures
        b == spec_pattern_ok(byte),
{
    !bit(byte, 0) && bit(byte, 1) && bit(byte, 4) && !bit(byte, 7)
}

#[derive(Debug, Clone, Copy, PartialEq, Eq, Structural)]
pub struct PrinterStatus {
    pub drawer_kick_pin3_low: bool,
    pub online: bool,
    pub waiting_for_online_recovery: bool,
    pub paper_feed_button_pressed: bool,
}

#[derive(Debug, Clone, Copy, PartialEq, Eq, Structural)]
pub struct OfflineCause {
    pub cover_closed: bool,
    pub paper_fed_by_button: bool,
    pub printing_stopped_paper_end: bool,
    pub error_occurred: bool,
}

#[derive(Debug, Clone, Copy, PartialEq, Eq, Structural)]
pub struct ErrorCause {
    pub recoverable: bool,
    pub autocutter: bool,
    pub unrecoverable: bool,
    pub auto_recoverable: bool,
}

#[derive(Debug, Clone, Copy, PartialEq, Eq, Structural)]
pub struct RollPaper {
    pub near_end_adequate: bool,
    pub paper_present: bool,
}

#[derive(Debug, Clone, Copy, PartialEq, Eq, Structural)]
pub enum Status {
    Printer(PrinterStatus),
    OfflineCause(OfflineCause),
    ErrorCause(ErrorCause),
    RollPaper(RollPaper),
}

/// The named flags of a status byte, read as the request's table defines them.
pub open spec fn spec_parse_status(request: StatusRequest, byte: u8) -> Result<Status, StatusError> {
    if !spec_pattern_ok(byte) {
        Err(StatusError::BadPattern { byte })
    } else {
        Ok(
            match request {
                StatusRequest::Printer => Status::Printer(
                    PrinterStatus {
                        drawer_kick_pin3_low: !spec_bit(byte, 2),
                        online: !spec_bit(byte, 3),
                        waiting_for_online_recovery: spec_bit(byte, 5),
                        paper_feed_button_pressed: spec_bit(byte, 6),
                    },
                ),
                StatusRequest::OfflineCause => Status::OfflineCause(
                    OfflineCause {
                        cover_closed: !spec_bit(byte, 2),
                        paper_fed_by_button: spec_bit(byte, 3),
                        printing_stopped_paper_end: spec_bit(byte, 5),
                        error_occurred: spec_bit(byte, 6),
                    },
                ),
                StatusRequest::ErrorCause => Status::ErrorCause(
                    ErrorCause {
                        recoverable: spec_bit(byte, 2),
                        autocutter: spec_bit(byte, 3),
                        unrecoverable: spec_bit(byte, 5),
                        auto_recoverable: spec_bit(byte, 6),
                    },
                ),
                StatusRequest::RollPaper => Status::RollPaper(
                    RollPaper {
                        near_end_adequate: !spec_bit(byte, 2) && !spec_bit(byte, 3),
                        paper_present: !spec_bit(byte, 5) && !spec_bit(byte, 6),
                    },
                ),
            },
        )
    }
}

/// Check the fixed bits, then name the request's flags.
/// A roll paper reply has the fixed frame (bits 1 and 4 set, bits 0 and 7
/// clear) and two sensor pairs: the near-end sensor in bits 2 and 3, the
/// paper-end sensor in bits 5 and 6. Paper is adequate while the near-end
/// pair is clear, and present while the paper-end pair is clear.
pub proof fn lemma_roll_paper_sensors(byte: u8)
    ensures
        byte & 0x93 == 0x12 ==> spec_parse_status(StatusRequest::RollPaper, byte) == Ok::<
            Status,
            StatusError,
        >(
            Status::RollPaper(
                RollPaper { near_end_adequate: byte & 0x0c == 0, paper_present: byte & 0x60 == 0 },
            ),
        ),
        byte & 0x93 != 0x12 ==> spec_parse_status(StatusRequest::RollPaper, byte) == Err::<
            Status,
            StatusError,
        >(StatusError::BadPattern { byte }),
{
    assert((!((byte >> 0u8) & 1 == 1) && (byte >> 1u8) & 1 == 1 && (byte >> 4u8) & 1 == 1 && !((
    byte >> 7u8) & 1 == 1)) == (byte & 0x93 == 0x12)) by (bit_vector);
    assert((!((byte >> 2u8) & 1 == 1) && !((byte >> 3u8) & 1 == 1)) == (byte & 0x0c == 0))
        by (bit_vector);
    assert((!((byte >> 5u8) & 1 == 1) && !((byte >> 6u8) & 1 == 1)) == (byte & 0x60 == 0))
        by (bit_vector);
}

/// The other replies name single bits of a framed byte: bit 2 (0x04), bit 3
/// (0x08), bit 5 (0x20) and bit 6 (0x40). The drawer pin is low, the printer
/// online and its cover closed while their bit is clear; every other flag is
/// its bit set.
pub proof fn lemma_status_flag_bits(byte: u8)
    requires
        byte & 0x93 == 0x12,
    ensures
        spec_parse_status(StatusRequest::Printer, byte) == Ok::<Status, StatusError>(
            Status::Printer(
                PrinterStatus {
                    drawer_kick_pin3_low: byte & 0x04 == 0,
                    online: byte & 0x08 == 0,
                    waiting_for_online_recovery: byte & 0x20 != 0,
                    paper_feed_button_pressed: byte & 0x40 != 0,
                },
            ),
        ),
        spec_parse_status(StatusRequest::OfflineCause, byte) == Ok::<Status, StatusError>(
            Status::OfflineCause(
                OfflineCause {
                    cover_closed: byte & 0x04 == 0,
                    paper_fed_by_button: byte & 0x08 != 0,
                    printing_stopped_paper_end: byte & 0x20 != 0,
                    error_occurred: byte & 0x40 != 0,
                },
            ),
        ),
        spec_parse_status(StatusRequest::ErrorCause, byte) == Ok::<Status, StatusError>(
            Status::ErrorCause(
                ErrorCause {
                    recoverable: byte & 0x04 != 0,
                    autocutter: byte & 0x08 != 0,
                    unrecoverable: byte & 0x20 != 0,
                    auto_recoverable: byte & 0x40 != 0,
                },
            ),
        ),
{
    assert((!((byte >> 0u8) & 1 == 1) && (byte >> 1u8) & 1 == 1 && (byte >> 4u8) & 1 == 1 && !((
    byte >> 7u8) & 1 == 1)) == (byte & 0x93 == 0x12)) by (bit_vector);
    assert(((byte >> 2u8) & 1 == 1) == (byte & 0x04 != 0)) by (bit_vector);
    assert(((byte >> 3u8) & 1 == 1) == (byte & 0x08 != 0)) by (bit_vector);
    assert(((byte >> 5u8) & 1 == 1) == (byte & 0x20 != 0)) by (bit_vector);
    assert(((byte >> 6u8) & 1 == 1) == (byte & 0x40 != 0)) by (bit_vector);
}

pub fn parse_status(request: StatusRequest, byte: u8) -> (r: Result<Status, StatusError>)
    ensures
        r == spec_parse_status(request, byte),
{
    if !pattern_ok(byte) {
        return Err(StatusError::BadPattern { byte });
    }
    Ok(
        match request {
            StatusRequest::Printer => Status::Printer(
                PrinterStatus {
                    drawer_kick_pin3_low: !bit(byte, 2),
                    online: !bit(byte, 3),
                    waiting_for_online_recovery: bit(byte, 5),
                    paper_feed_button_pressed: bit(byte, 6),
                },
            ),
            StatusRequest::OfflineCause => Status::OfflineCause(
                OfflineCause {
                    cover_closed: !bit(byte, 2),
                    paper_fed_by_button: bit(byte, 3),
                    printing_stopped_paper_end: bit(byte, 5),
                    error_occurred: bit(byte, 6),
                },
            ),
            StatusRequest::ErrorCause => Status::ErrorCause(
                ErrorCause {
                    recoverable: bit(byte, 2),
                    autocutter: bit(byte, 3),
                    unrecoverable: bit(byte, 5),
                    auto_recoverable: bit(byte, 6),
                },
            ),
            StatusRequest::RollPaper => Status::RollPaper(
                RollPaper {
                    near_end_adequate: !bit(byte, 2) && !bit(byte, 3),
                    paper_present: !bit(byte, 5) && !bit(byte, 6),
                },
            ),
        },
    )
}

} // verus!

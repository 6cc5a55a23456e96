//! ESC/POS encoding for the Epson TM-T20III, with reply framing, status
//! parsing, and a small attention router whose paper projection is this
//! encoder.

pub mod barcode;
pub mod cli;
pub mod bytes;
pub mod command;
pub mod connector;
pub mod cp437;
pub mod delivery;
pub mod document;
pub mod encode;
pub mod error;
pub mod graphics;
pub mod host;
pub mod http;
pub mod identify;
pub mod memory;
pub mod paper;
pub mod policy;
pub mod providers;
pub mod raster;
pub mod reply;
pub mod rollout;
pub mod selftest;
pub mod status;
pub mod symbol;
pub mod text;
pub mod transport;
pub mod typeface;
pub mod usb;

use vstd::prelude::*;

pub use command::Command;
pub use connector::{
    Capability, Connector, ConnectorDescriptor, ConnectorError, ConnectorKey, ConnectorRegistry,
    CursorCodec, CursorToken, EffectOutcome, EffectRequest, EffectTarget, EffectVerb,
    ErasedConnector, ExternalKey, NormalizedObservation, ObservationKind, ProviderLocator,
    PullBatch, RegisteredConnector, SourceClass, TypedConnector, TypedPullBatch,
};
pub use delivery::{
    Ambiguous, AppliedEffect, Attempt, AttemptId, Delivered, DeliveryError, DeliveryMachine,
    EditionId, Encoded, Failed, FailedEffect, Planned, ReprintPlan, ReprintReason, Transmitting,
    UnixMillis, UpstreamEffect,
};
pub use document::Document;
pub use encode::encode;
pub use error::{EncodeError, Error, FramingError, RasterError, Result};
pub use graphics::{Graphics, GraphicsScale};
pub use http::{
    HttpMethod, HttpRequest, HttpResponse, HttpStatus, HttpTransport, MockHttp, RequestBody, TransportError,
};
pub use host::{ean13_page, hello, qr_page, rule, ruler, text_page};
pub use memory::{Memory, MemoryRead};
pub use paper::{
    CompiledEdition, Digest, DigestItem, Interrupt, MAX_DIGEST_ITEMS, MAX_TAPE_DOTS, PaperError,
    PaperText, ProjectedCopy, RenderedEdition, Section, SourceCopy, render_digest,
    render_interrupt,
};
pub use policy::{
    Candidate, EffectRule, InterruptionWindow, Lane, PolicyError, PolicyTable, Privacy,
    RouteDecision, RouteRule, SenderTrust, Signal, SignalSelector, SourceSelector, TrustSelector,
    Urgency, WindowSelector, default_policy,
};
pub use providers::ProviderError;
pub use raster::Raster;
pub use reply::ReplyReader;
pub use rollout::{BuiltinConnector, ConnectorPlan, RolloutStage, rollout};
pub use selftest::{Case, catalog, find as find_case};
pub use transport::Transport;

verus! {

/// Epson's USB vendor id.
pub const VID: u16 = 0x04b8;

/// The TM-T20III USB product id.
pub const PID: u16 = 0x0e28;

/// Columns per line in Font A (12 x 24 dots).
pub const COLS_A: u16 = 48;

/// Columns per line in Font B (9 x 17 dots).
pub const COLS_B: u16 = 64;

/// Dots per Font A row.
pub const ROW_DOTS_A: u8 = 24;

/// Printable width of the 80 mm roll, in dots.
pub const PRINTABLE_DOTS: u16 = 576;

} // verus!

//! Telemetry export settings.

use vstd::prelude::*;
use crate::text::{has_prefix, text_eq, starts_with};

verus! {

/// Whether the OTLP exporters use HTTP (rather than gRPC) for a protocol
/// name: `http/protobuf` or any name starting with `http`.
pub fn uses_http_exporter(protocol: &str) -> (r: bool)
    ensures
        r == (protocol@ == "http/protobuf"@ || starts_with(protocol@, "http"@)),
{
    text_eq(protocol, "http/protobuf") || has_prefix(protocol, "http")
}

} // verus!

use vstd::prelude::*;
use crate::window::Nanos;

verus! {

/// The access point the adapter is associated with. The SSID alone is too ambiguous to
/// identify a network, so the MAC address comes with it.
#[derive(Debug)]
pub struct ConnectedAp {
    pub ssid: String,
    pub mac: String,
}

impl View for ConnectedAp {
    type V = (Seq<char>, Seq<char>);

    open spec fn view(&self) -> (Seq<char>, Seq<char>) {
        (self.ssid@, self.mac@)
    }
}

impl Clone for ConnectedAp {
    fn clone(&self) -> (r: Self)
        ensures
            r == *self,
    {
        ConnectedAp { ssid: self.ssid.clone(), mac: self.mac.clone() }
    }
}

/// The SSID and MAC address of an optional access point, as text.
pub open spec fn ap_view(ap: Option<ConnectedAp>) -> Option<(Seq<char>, Seq<char>)> {
    match ap {
        Some(a) => Some(a@),
        None => None,
    }
}

/// Whether two optional access points are the same: both absent, or both present with the
/// same SSID and the same MAC address.
pub fn same_ap(a: &Option<ConnectedAp>, b: &Option<ConnectedAp>) -> (r: bool)
    ensures
        r == (ap_view(*a) == ap_view(*b)),
{
    match (a, b) {
        (Some(x), Some(y)) => x.ssid == y.ssid && x.mac == y.mac,
        (None, None) => true,
        _ => false,
    }
}

/// A copy of an optional access point.
pub fn clone_ap(a: &Option<ConnectedAp>) -> (r: Option<ConnectedAp>)
    ensures
        r == *a,
{
    match a {
        Some(x) => Some(x.clone()),
        None => None,
    }
}

/// A sampling rate, kept as the exact ratio it is measured from: `samples` readings over
/// `over_nanos` nanoseconds. In hertz it is `samples / (over_nanos / 10^9)`.
#[derive(Debug, Clone, Copy, PartialEq, Eq)]
pub struct SampleRate {
    pub samples: u32,
    pub over_nanos: Nanos,
}

/// What the fast sampler is currently able to do for the selected network.
#[derive(Debug)]
pub enum FastStatus {
    Sampling { rate: SampleRate },
    NotConnected,
    Unsupported,
    Error(String),
}

impl Clone for FastStatus {
    fn clone(&self) -> (r: Self)
        ensures
            r == *self,
    {
        match self {
            FastStatus::Sampling { rate } => FastStatus::Sampling { rate: *rate },
            FastStatus::NotConnected => FastStatus::NotConnected,
            FastStatus::Unsupported => FastStatus::Unsupported,
            FastStatus::Error(e) => FastStatus::Error(e.clone()),
        }
    }
}

/// What a fixed status line says; a sampling status states its rate, which is formatted as a
/// decimal number by the caller.
pub open spec fn status_text(status: FastStatus) -> Option<Seq<char>> {
    match status {
        FastStatus::Sampling { .. } => None,
        FastStatus::NotConnected => Some(
            "not connected to this AP - only the connected AP can be sampled fast"@,
        ),
        FastStatus::Unsupported => Some("fast sampling unsupported on this platform"@),
        FastStatus::Error(e) => Some("error: "@ + e@),
    }
}

impl FastStatus {
    /// Whether the sampler is taking readings.
    pub fn is_sampling(&self) -> (r: bool)
        ensures
            r == (*self is Sampling),
    {
        match self {
            FastStatus::Sampling { .. } => true,
            _ => false,
        }
    }

    /// The line that describes this status, for every status but `Sampling`.
    pub fn describe(&self) -> (r: Option<String>)
        ensures
            r matches Some(t) ==> status_text(*self) == Some(t@),
            r is None <==> status_text(*self) is None,
    {
        match self {
            FastStatus::Sampling { .. } => None,
            FastStatus::NotConnected => {
                let t = String::from_str(
                    "not connected to this AP - only the connected AP can be sampled fast",
                );
                Some(t)
            },
            FastStatus::Unsupported => {
                let t = String::from_str("fast sampling unsupported on this platform");
                Some(t)
            },
            FastStatus::Error(e) => {
                let mut t = String::from_str("error: ");
                t.append(e.as_str());
                Some(t)
            },
        }
    }

    /// The text of the error line: the message of an error, and nothing otherwise.
    pub fn error_text(&self) -> (r: String)
        ensures
            r@ == (match *self {
                FastStatus::Error(e) => e@,
                _ => Seq::<char>::empty(),
            }),
    {
        match self {
            FastStatus::Error(e) => e.clone(),
            _ => String::new(),
        }
    }
}

} // verus!

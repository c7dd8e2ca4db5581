//! Quota seams: requests, decisions, reservations and their errors.

use vstd::prelude::*;
use vstd::string::*;
use crate::text::{decimal, push_decimal};
use crate::billing::meter_kind::{MeterKind, MeterKindView, KindMap};
use crate::billing::identity::BillingSubject;
use crate::billing::observation::quantity_of;

verus! {

/// A request to check whether a quota allows an operation.
#[derive(Debug)]
pub struct QuotaRequest {
    pub subject: BillingSubject,
    pub requested: UsageAmount,
    pub _placeholder: (),
}

/// The answer to a quota check.
#[derive(Clone, Debug, PartialEq, Eq)]
pub enum QuotaDecision {
    Allowed { remaining: Option<u64> },
    Denied { reason: String },
}

/// A request to reserve quota before consuming it.
#[derive(Debug)]
pub struct ReservationRequest {
    pub subject: BillingSubject,
    pub amount: UsageAmount,
    pub _placeholder: (),
}

/// An active reservation.
#[derive(Debug)]
pub struct Reservation {
    pub id: String,
    pub amount: UsageAmount,
    pub _placeholder: (),
}

/// Usage quantities for quota purposes, one per meter kind.
#[derive(Debug)]
pub struct UsageAmount {
    pub meters: KindMap<u64>,
}

impl View for UsageAmount {
    type V = Map<MeterKindView, u64>;

    open spec fn view(&self) -> Map<MeterKindView, u64> {
        self.meters@
    }
}

impl UsageAmount {
    /// No quantities.
    pub fn new() -> (a: Self)
        ensures
            a@ == Map::<MeterKindView, u64>::empty(),
    {
        UsageAmount { meters: KindMap::new() }
    }

    /// Adds `quantity` to the amount for `kind` (the sum must fit in a `u64`).
    pub fn insert(&mut self, kind: MeterKind, quantity: u64)
        requires
            quantity_of(old(self)@, kind@) + quantity <= u64::MAX,
        ensures
            final(self)@ == old(self)@.insert(kind@, (quantity_of(old(self)@, kind@) + quantity) as u64),
    {
        let current: u64 = match self.meters.get(&kind) {
            Some(v) => *v,
            None => 0,
        };
        self.meters.insert(kind, current + quantity);
    }

    /// The amount for `kind`, zero when absent.
    pub fn get(&self, kind: &MeterKind) -> (q: u64)
        ensures
            q as nat == quantity_of(self@, kind@),
    {
        match self.meters.get(kind) {
            Some(v) => *v,
            None => 0,
        }
    }
}

impl Default for UsageAmount {
    fn default() -> (a: Self)
        ensures
            a@ == Map::<MeterKindView, u64>::empty(),
    {
        UsageAmount::new()
    }
}

/// Synchronous quota authorization; every error means the request is denied.
pub trait QuotaAuthorizer {
    fn authorize(&self, request: &QuotaRequest) -> Result<QuotaDecision, QuotaError>;
}

/// Two-phase quota: reserve before a request, then commit or refund.
pub trait QuotaReservator {
    fn reserve(&self, reservation: &ReservationRequest) -> Result<Reservation, QuotaError>;

    fn commit(&self, reservation_id: &str, amount: &UsageAmount) -> Result<(), QuotaError>;

    fn refund(&self, reservation_id: &str, unused: &UsageAmount) -> Result<(), QuotaError>;
}

/// Why a quota operation failed; every one of them denies the request.
#[derive(Clone, Debug, PartialEq, Eq)]
pub enum QuotaError {
    Exceeded { subject: String, limit: u64, requested: u64 },
    ConnectionError(String),
    ReservationNotFound(String),
    InvalidState(String),
    Other(String),
}

/// The message of a quota error.
pub open spec fn quota_error_message(e: QuotaError) -> Seq<char> {
    match e {
        QuotaError::Exceeded { subject, limit, requested } =>
            "Quota exceeded for "@ + subject@ + ": limit="@ + decimal(limit as nat) + ", requested="@ + decimal(requested as nat),
        QuotaError::ConnectionError(s) => "Quota connection error: "@ + s@,
        QuotaError::ReservationNotFound(s) => "Reservation not found: "@ + s@,
        QuotaError::InvalidState(s) => "Invalid reservation state: "@ + s@,
        QuotaError::Other(s) => "Quota error: "@ + s@,
    }
}

fn prefixed(prefix: &str, s: &String) -> (m: String)
    ensures
        m@ == prefix@ + s@,
{
    let mut m = String::from_str(prefix);
    m.append(s.as_str());
    m
}

impl QuotaError {
    /// The human-readable message.
    pub fn message(&self) -> (m: String)
        ensures
            m@ == quota_error_message(*self),
    {
        match self {
            QuotaError::Exceeded { subject, limit, requested } => {
                let mut m = String::from_str("Quota exceeded for ");
                m.append(subject.as_str());
                m.append(": limit=");
                push_decimal(&mut m, *limit);
                m.append(", requested=");
                push_decimal(&mut m, *requested);
                m
            },
            QuotaError::ConnectionError(s) => prefixed("Quota connection error: ", s),
            QuotaError::ReservationNotFound(s) => prefixed("Reservation not found: ", s),
            QuotaError::InvalidState(s) => prefixed("Invalid reservation state: ", s),
            QuotaError::Other(s) => prefixed("Quota error: ", s),
        }
    }
}

} // verus!

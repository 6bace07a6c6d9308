//! The payments service: admits passengers by card and records payments.
use vstd::prelude::*;

verus! {

/// Port of the payments service.
pub const PAYMENTS_PORT: u16 = 8000;

/// Outcome of a card validation.
#[derive(Clone, Copy, Debug, PartialEq, Eq, Structural)]
pub enum ValidationStatus {
    Success,
    Failure,
}

/// A passenger asks to have its card validated.
#[derive(Clone, Copy, Debug, PartialEq, Eq, Structural)]
pub struct ValidatePayment {
    pub passenger_id: u16,
    pub card_number: u64,
}

/// A passenger pays for a finished trip.
#[derive(Clone, Copy, Debug, PartialEq, Eq, Structural)]
pub struct MakePayment {
    pub passenger_id: u16,
}

/// The service's answer to a validation.
#[derive(Clone, Copy, Debug, PartialEq, Eq, Structural)]
pub struct ValidatePaymentResponse {
    pub status: ValidationStatus,
}

/// Messages of the payments protocol.
#[derive(Clone, Copy, Debug, PartialEq, Eq, Structural)]
pub enum PaymentMsg {
    ValidatePayment(ValidatePayment),
    MakePayment(MakePayment),
    ValidatePaymentResponse(ValidatePaymentResponse),
}

/// The validation rule: a card with an even number is accepted.
pub open spec fn card_status(card_number: u64) -> ValidationStatus {
    if card_number % 2 == 0 {
        ValidationStatus::Success
    } else {
        ValidationStatus::Failure
    }
}

/// The payments service, listening on `port`.
pub struct Payments {
    port: u16,
}

impl Payments {
    /// The port the service listens on.
    pub closed spec fn spec_port(&self) -> u16 {
        self.port
    }

    /// A service that will listen on `port`.
    pub fn new(port: u16) -> (r: Payments)
        ensures
            r.spec_port() == port,
    {
        Payments { port }
    }

    /// The port the service listens on.
    pub fn port(&self) -> (r: u16)
        ensures
            r == self.spec_port(),
    {
        self.port
    }

    /// Validates a card number.
    pub fn validate_card(card_number: u64) -> (r: ValidationStatus)
        ensures
            r == card_status(card_number),
    {
        if card_number % 2 == 0 {
            ValidationStatus::Success
        } else {
            ValidationStatus::Failure
        }
    }

    /// The reply to one message: a validation gets its outcome; a payment and
    /// a stray response get none.
    pub fn respond(&self, msg: PaymentMsg) -> (r: Option<PaymentMsg>)
        ensures
            r == match msg {
                PaymentMsg::ValidatePayment(v) => Some(
                    PaymentMsg::ValidatePaymentResponse(
                        ValidatePaymentResponse { status: card_status(v.card_number) },
                    ),
                ),
                _ => None,
            },
    {
        match msg {
            PaymentMsg::ValidatePayment(v) => Some(
                PaymentMsg::ValidatePaymentResponse(
                    ValidatePaymentResponse { status: Self::validate_card(v.card_number) },
                ),
            ),
            _ => None,
        }
    }
}

} // verus!

//! Payments that are due for redemption, and how each is to be redeemed.

use vstd::prelude::*;
use vstd::string::StringExecFns;

use crate::address::amount_number;
use crate::address::hex_prefix;
use crate::address::is_decimal_digit;
use crate::address::is_hex_digit;
use crate::address::well_formed_address;
use crate::address::well_formed_amount;
use crate::circles::FindPathParams;
use crate::text::address_bytes;
use crate::text::decimal_text;
use crate::text::digit_value;
use crate::text::hex_digit;
use crate::text::numeral_value;
use crate::text::flow_limit;
use crate::text::hex_encode;
use crate::text::hex_text;
use crate::text::parse_address;
use crate::text::parse_prefixed_flow;
use crate::text::parse_prefixed_word;
use crate::text::prefixed_number;
use crate::text::render_decimal;
use crate::word::word_limit;

verus! {

/// A payment that is due: `amount` from `subscriber` to `recipient`.
#[derive(Debug, Clone)]
pub struct RedeemableSubscription {
    pub id: String,
    pub recipient: String,
    pub subscriber: String,
    pub amount: String,
    pub trusted: bool,
}

/// How a payment is redeemed.
#[derive(Debug)]
pub enum Redemption {
    /// Directly, without a path.
    Untrusted,
    /// Along a path through the trust network, found for these parameters.
    AlongPath { params: FindPathParams },
}

/// The parameters of the path for a payment: from the subscriber to the
/// recipient, over the amount due, with wrapped balances, and with no
/// restriction on tokens.
pub open spec fn path_params(subscription: RedeemableSubscription) -> FindPathParams {
    FindPathParams {
        from: subscription.subscriber,
        to: subscription.recipient,
        target_flow: subscription.amount,
        use_wrapped_balances: Some(true),
        from_tokens: None,
        to_tokens: None,
        exclude_from_tokens: None,
        exclude_to_tokens: None,
    }
}

/// Decides how a payment is redeemed: along a path where it is trusted, and
/// directly where it is not.
pub fn plan_redemption(subscription: &RedeemableSubscription) -> (plan: Redemption)
    ensures
        plan == (if subscription.trusted {
            Redemption::AlongPath { params: path_params(*subscription) }
        } else {
            Redemption::Untrusted
        }),
{
    if subscription.trusted {
        Redemption::AlongPath {
            params: FindPathParams {
                from: subscription.subscriber.clone(),
                to: subscription.recipient.clone(),
                target_flow: subscription.amount.clone(),
                use_wrapped_balances: Some(true),
                from_tokens: None,
                to_tokens: None,
                exclude_from_tokens: None,
                exclude_to_tokens: None,
            },
        }
    } else {
        Redemption::Untrusted
    }
}

/// What a payment is to the contracts: the texts of its parts.
pub struct SubscriptionView {
    pub id: Seq<char>,
    pub recipient: Seq<char>,
    pub subscriber: Seq<char>,
    pub amount: Seq<char>,
    pub trusted: bool,
}

impl View for RedeemableSubscription {
    type V = SubscriptionView;

    open spec fn view(&self) -> SubscriptionView {
        SubscriptionView {
            id: self.id@,
            recipient: self.recipient@,
            subscriber: self.subscriber@,
            amount: self.amount@,
            trusted: self.trusted,
        }
    }
}

/// Why a payment is not redeemed.
#[derive(Debug, Clone, Copy, PartialEq, Eq, Structural)]
pub enum PaymentError {
    /// The id is no number below two to the power of 256.
    InvalidId,
    /// The subscriber is no address.
    InvalidSubscriber,
    /// The recipient is no address.
    InvalidRecipient,
    /// The amount is no number below two to the power of 192.
    InvalidAmount,
}

/// What is wrong with a payment, if anything: the first of its id, and for a
/// trusted payment its subscriber, its recipient and its amount, that cannot
/// be read. An untrusted payment is redeemed by its id alone.
pub open spec fn payment_failure(payment: SubscriptionView) -> Option<PaymentError> {
    if prefixed_number(payment.id, word_limit()) is None {
        Some(PaymentError::InvalidId)
    } else if !payment.trusted {
        None
    } else if address_bytes(payment.subscriber) is None {
        Some(PaymentError::InvalidSubscriber)
    } else if address_bytes(payment.recipient) is None {
        Some(PaymentError::InvalidRecipient)
    } else if prefixed_number(payment.amount, flow_limit()) is None {
        Some(PaymentError::InvalidAmount)
    } else {
        None
    }
}

/// The canonical text of an address: `0x`, then its bytes in lower-case
/// hexadecimal.
pub open spec fn address_text(bytes: Seq<u8>) -> Seq<char> {
    hex_prefix() + hex_text(bytes)
}

/// A payment in canonical form. A trusted payment has its subscriber and its
/// recipient as canonical addresses and its amount as a decimal numeral; an
/// untrusted one is left as it is.
pub open spec fn canonical_payment(payment: SubscriptionView) -> SubscriptionView {
    if payment.trusted {
        SubscriptionView {
            id: payment.id,
            recipient: address_text(address_bytes(payment.recipient).unwrap()),
            subscriber: address_text(address_bytes(payment.subscriber).unwrap()),
            amount: decimal_text(prefixed_number(payment.amount, flow_limit()).unwrap()),
            trusted: true,
        }
    } else {
        payment
    }
}

/// An address as canonical text.
fn write_address(bytes: [u8; 20]) -> (text: String)
    ensures
        text@ == address_text(bytes@),
{
    let mut text = String::from_str("0x");
    proof {
        reveal_strlit("0x");
        assert(text@ =~= hex_prefix());
    }
    text.append(hex_encode(bytes.as_slice()).as_str());
    text
}

/// Checks a payment before anything is sent for it, and hands it on in
/// canonical form. Nothing is handed on where a part of it that the
/// redemption needs cannot be read.
pub fn check_subscription(subscription: &RedeemableSubscription) -> (checked: Result<
    RedeemableSubscription,
    PaymentError,
>)
    ensures
        match checked {
            Ok(payment) => {
                &&& payment_failure(subscription@) is None
                &&& payment@ == canonical_payment(subscription@)
            },
            Err(error) => payment_failure(subscription@) == Some(error),
        },
{
    if parse_prefixed_word(subscription.id.as_str()).is_err() {
        return Err(PaymentError::InvalidId);
    }
    if !subscription.trusted {
        return Ok(
            RedeemableSubscription {
                id: subscription.id.clone(),
                recipient: subscription.recipient.clone(),
                subscriber: subscription.subscriber.clone(),
                amount: subscription.amount.clone(),
                trusted: false,
            },
        );
    }
    let subscriber = match parse_address(subscription.subscriber.as_str()) {
        Ok(bytes) => bytes,
        Err(_) => {
            return Err(PaymentError::InvalidSubscriber);
        },
    };
    let recipient = match parse_address(subscription.recipient.as_str()) {
        Ok(bytes) => bytes,
        Err(_) => {
            return Err(PaymentError::InvalidRecipient);
        },
    };
    let amount = match parse_prefixed_flow(subscription.amount.as_str()) {
        Ok(limbs) => limbs,
        Err(_) => {
            return Err(PaymentError::InvalidAmount);
        },
    };
    let wide: [u64; 5] = [amount[0], amount[1], amount[2], 0, 0];
    Ok(
        RedeemableSubscription {
            id: subscription.id.clone(),
            recipient: write_address(recipient),
            subscriber: write_address(subscriber),
            amount: render_decimal(wide),
            trusted: true,
        },
    )
}

/// The canonical text of twenty bytes is an address in canonical form.
pub proof fn lemma_address_text_well_formed(bytes: Seq<u8>)
    requires
        bytes.len() == 20,
    ensures
        well_formed_address(address_text(bytes)),
{
    let text = address_text(bytes);
    assert(text.len() == 42);
    assert(text[0] == '0');
    assert(text[1] == 'x');
    assert forall|i: int| 2 <= i < text.len() implies is_hex_digit(#[trigger] text[i]) by {
        let k = i - 2;
        assert(text[i] == hex_text(bytes)[k]);
        let byte = bytes[k / 2];
        lemma_hex_digit_is_digit((byte / 16) as nat);
        lemma_hex_digit_is_digit((byte % 16) as nat);
    }
}

/// The character of a digit is a hexadecimal digit in lower case, and a
/// decimal digit where the digit is below ten; it stands for the digit.
pub proof fn lemma_hex_digit_is_digit(digit: nat)
    requires
        digit < 16,
    ensures
        is_hex_digit(hex_digit(digit)),
        digit < 10 ==> is_decimal_digit(hex_digit(digit)),
        digit < 10 ==> digit_value(hex_digit(digit), 10) == Some(digit),
        hex_digit(digit) != '_',
{
}

/// The decimal numeral of a number is digits alone and stands for the number.
pub proof fn lemma_decimal_text_reads_back(number: nat)
    ensures
        well_formed_amount(decimal_text(number)),
        numeral_value(decimal_text(number), 10) == Some(number),
    decreases number,
{
    let text = decimal_text(number);
    if number < 10 {
        lemma_hex_digit_is_digit(number);
        assert(text =~= seq![hex_digit(number)]);
        assert(text.drop_last() =~= Seq::<char>::empty());
        reveal_with_fuel(numeral_value, 2);
    } else {
        let front = decimal_text(number / 10);
        lemma_decimal_text_reads_back(number / 10);
        lemma_hex_digit_is_digit(number % 10);
        assert(text.drop_last() =~= front);
        assert(text.last() == hex_digit(number % 10));
        assert forall|i: int| 0 <= i < text.len() implies is_decimal_digit(text[i]) by {
            if i < front.len() {
                assert(text[i] == front[i]);
            }
        }
    }
}

/// The amount of a payment in canonical form is a decimal numeral that the
/// flow matrix reads as the same number.
pub proof fn lemma_canonical_amount(number: nat)
    requires
        number < flow_limit(),
    ensures
        amount_number(decimal_text(number)) == Some(number),
{
    lemma_decimal_text_reads_back(number);
}

/// A trusted payment that passed the check is, in canonical form, one that
/// the flow matrix can be built for: its subscriber and its recipient are
/// addresses in canonical form, and its amount is read as the same number.
pub proof fn lemma_checked_payment(payment: SubscriptionView)
    requires
        payment.trusted,
        payment_failure(payment) is None,
    ensures
        well_formed_address(canonical_payment(payment).subscriber),
        well_formed_address(canonical_payment(payment).recipient),
        amount_number(canonical_payment(payment).amount) == prefixed_number(
            payment.amount,
            flow_limit(),
        ),
{
    lemma_address_text_well_formed(address_bytes(payment.subscriber).unwrap());
    lemma_address_text_well_formed(address_bytes(payment.recipient).unwrap());
    lemma_canonical_amount(prefixed_number(payment.amount, flow_limit()).unwrap());
}

} // verus!

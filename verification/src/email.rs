//! General types for Email messages: validated addresses, the
//! transport envelope, and the finished email.

use vstd::prelude::*;
use vstd::string::StringExecFns;
use vstd::utf8::{encode_utf8, valid_utf8};

use crate::strings::{spec_ends_with, str_ends_with};

verus! {

/// Email address.
#[derive(PartialEq, Eq, Clone, Debug)]
pub struct EmailAddress(String);

impl View for EmailAddress {
    type V = Seq<char>;

    closed spec fn view(&self) -> Seq<char> {
        self.0@
    }
}

impl DeepView for EmailAddress {
    type V = Seq<char>;

    open spec fn deep_view(&self) -> Seq<char> {
        self.view()
    }
}

/// Error values for `EmailAddress` parsing.
#[derive(Copy, Clone, Debug)]
pub enum EmailAddressError {
    /// The address is not valid.
    Invalid,
}

/// Whether fast_chemail accepts `s` as a valid email address.
pub uninterp spec fn chemail_valid(s: Seq<char>) -> bool;

/// Relies on fast_chemail::is_valid_email: acceptance is a function of
/// the text alone.
#[verifier::external_body]
fn is_valid_email_exec(s: &str) -> (r: bool)
    ensures
        r == chemail_valid(s@),
{
    fast_chemail::is_valid_email(s)
}

/// The addresses `EmailAddress::new` accepts: those the validator
/// takes, plus anything ending in `localhost`.
pub open spec fn spec_accepted_address(s: Seq<char>) -> bool {
    chemail_valid(s) || spec_ends_with(s, "localhost"@)
}

impl EmailAddress {
    /// Constructs a new `EmailAddress`, validating the incoming string.
    pub fn new(address: String) -> (r: Result<EmailAddress, EmailAddressError>)
        ensures
            r is Ok <==> spec_accepted_address(address@),
            r matches Ok(a) ==> a@ == address@,
            r matches Err(e) ==> e == EmailAddressError::Invalid,
    {
        if !is_valid_email_exec(address.as_str()) && !str_ends_with(address.as_str(), "localhost")
        {
            return Err(EmailAddressError::Invalid);
        }
        Ok(EmailAddress(address))
    }

    /// Constructs a new `EmailAddress` from text, validating it.
    pub fn from_str(s: &str) -> (r: Result<EmailAddress, EmailAddressError>)
        ensures
            r is Ok <==> spec_accepted_address(s@),
            r matches Ok(a) ==> a@ == s@,
            r matches Err(e) ==> e == EmailAddressError::Invalid,
    {
        EmailAddress::new(s.to_owned())
    }

    /// Wraps an address whose shape the caller has already checked.
    pub(crate) fn new_unchecked(address: String) -> (r: EmailAddress)
        ensures
            r@ == address@,
    {
        EmailAddress(address)
    }

    /// The address as text.
    pub fn as_str(&self) -> (r: &str)
        ensures
            r@ == self@,
    {
        self.0.as_str()
    }

    /// The address as an owned string.
    pub fn to_string(&self) -> (r: String)
        ensures
            r@ == self@,
    {
        self.0.clone()
    }
}

/// Represents a message id.
pub type MessageId = String;

/// Simple email representation.
#[derive(PartialEq, Eq, Debug)]
pub struct Email {
    /// Message.
    pub message: Vec<u8>,
    /// Envelope.
    pub envelope: Envelope,
    /// Message-ID.
    pub message_id: String,
}

/// Declares the error std returns for bytes that are not UTF-8.
#[verifier::external_type_specification]
#[verifier::external_body]
pub struct ExFromUtf8Error(std::string::FromUtf8Error);

/// Relies on `String::from_utf8`: it returns the bytes as a string when
/// they are valid UTF-8 and refuses them otherwise.
pub assume_specification[ String::from_utf8 ](vec: Vec<u8>) -> (r: Result<
    String,
    std::string::FromUtf8Error,
>)
    ensures
        r is Ok <==> valid_utf8(vec@),
        r matches Ok(s) ==> encode_utf8(s@) == vec@,
;

impl Email {
    /// Creates a new email builder.
    pub fn builder() -> (r: crate::EmailBuilder)
        ensures
            r@ == crate::email_builder::spec_new_builder(r@.message),
    {
        crate::EmailBuilder::new()
    }

    /// Creates a string version of the actual message.
    pub fn message_to_string(self) -> (r: Result<String, std::string::FromUtf8Error>)
        ensures
            r is Ok <==> valid_utf8(self.message@),
            r matches Ok(s) ==> encode_utf8(s@) == self.message@,
    {
        String::from_utf8(self.message)
    }
}

/// The mathematical content of an `Envelope`: the recipient addresses
/// in order, and the sender address if any.
pub struct EnvelopeView {
    pub forward: Seq<Seq<char>>,
    pub reverse: Option<Seq<char>>,
}

/// Simple email envelope representation.
///
/// We only accept mailboxes, and do not support source routes (as per
/// RFC).
#[derive(PartialEq, Eq, Clone, Debug)]
pub struct Envelope {
    /// The envelope recipients' addresses; never empty.
    forward_path: Vec<EmailAddress>,
    /// The envelope sender address.
    reverse_path: Option<EmailAddress>,
}

impl View for Envelope {
    type V = EnvelopeView;

    closed spec fn view(&self) -> EnvelopeView {
        EnvelopeView {
            forward: self.forward_path.deep_view(),
            reverse: match self.reverse_path {
                Some(a) => Some(a@),
                None => None,
            },
        }
    }
}

/// Error values for `Envelope` construction.
#[derive(Copy, Clone, Debug)]
pub enum EnvelopeError {
    /// Missing to in the envelope.
    MissingTo,
    /// Missing from in the envelope.
    MissingFrom,
}

impl Envelope {
    /// Creates a new envelope, which fails exactly when `to` is empty.
    pub fn new(from: Option<EmailAddress>, to: Vec<EmailAddress>) -> (r: Result<
        Envelope,
        EnvelopeError,
    >)
        ensures
            r is Ok <==> to@.len() > 0,
            r matches Ok(env) ==> {
                &&& env@.forward == to.deep_view()
                &&& env@.reverse == (match from {
                    Some(f) => Some(f@),
                    None => None::<Seq<char>>,
                })
            },
            r matches Err(e) ==> e == EnvelopeError::MissingTo,
    {
        if to.len() == 0 {
            return Err(EnvelopeError::MissingTo);
        }
        Ok(Envelope { forward_path: to, reverse_path: from })
    }

    /// Destination addresses of the envelope.
    pub fn to(&self) -> (r: &[EmailAddress])
        ensures
            r.deep_view() == self@.forward,
    {
        self.forward_path.as_slice()
    }

    /// Source address of the envelope.
    pub fn from(&self) -> (r: Option<&EmailAddress>)
        ensures
            r is Some <==> self@.reverse is Some,
            r matches Some(a) ==> a@ == self@.reverse->0,
    {
        self.reverse_path.as_ref()
    }
}

} // verus!

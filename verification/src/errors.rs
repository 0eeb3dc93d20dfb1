use vstd::prelude::*;

use crate::numeric::{decimal_i16, format_i16};
use crate::text::concat_text;

verus! {

/// Error codes reported in the public values of a failed run.
#[derive(Clone, Copy, Debug, PartialEq, Eq, Structural)]
pub enum ZkErrorCode {
    ParseAttestationData,
    GetAttestorAddressFail,
    VerifyAttestation,
    InvalidRequestLength,
    InvalidMessagesLength,
    GetJsonValueFail,
    InvalidJsonValueSize,
    CannotFoundTimestamp,
    ParseTimestampFailed,
    InvalidRequestOrder,
    InvalidRequestUrl,
    DuplicateAccount,
    NotSupportSource,
    UpTimeNotEnough,
    EmptyPlainResponse,
    GetTaskIdFail,
    GetReportTxHashFail,
    InvalidAttestor,
    MissingRequiredData,
}

/// The number that stands for each code; they are consecutive from 1001.
pub open spec fn code_number(code: ZkErrorCode) -> i16 {
    match code {
        ZkErrorCode::ParseAttestationData => 1001,
        ZkErrorCode::GetAttestorAddressFail => 1002,
        ZkErrorCode::VerifyAttestation => 1003,
        ZkErrorCode::InvalidRequestLength => 1004,
        ZkErrorCode::InvalidMessagesLength => 1005,
        ZkErrorCode::GetJsonValueFail => 1006,
        ZkErrorCode::InvalidJsonValueSize => 1007,
        ZkErrorCode::CannotFoundTimestamp => 1008,
        ZkErrorCode::ParseTimestampFailed => 1009,
        ZkErrorCode::InvalidRequestOrder => 1010,
        ZkErrorCode::InvalidRequestUrl => 1011,
        ZkErrorCode::DuplicateAccount => 1012,
        ZkErrorCode::NotSupportSource => 1013,
        ZkErrorCode::UpTimeNotEnough => 1014,
        ZkErrorCode::EmptyPlainResponse => 1015,
        ZkErrorCode::GetTaskIdFail => 1016,
        ZkErrorCode::GetReportTxHashFail => 1017,
        ZkErrorCode::InvalidAttestor => 1018,
        ZkErrorCode::MissingRequiredData => 1019,
    }
}

/// The variant's name as the error-building shorthand spells it.
pub open spec fn code_name(code: ZkErrorCode) -> Seq<char> {
    match code {
        ZkErrorCode::ParseAttestationData => "ZkErrorCode::ParseAttestationData"@,
        ZkErrorCode::GetAttestorAddressFail => "ZkErrorCode::GetAttestorAddressFail"@,
        ZkErrorCode::VerifyAttestation => "ZkErrorCode::VerifyAttestation"@,
        ZkErrorCode::InvalidRequestLength => "ZkErrorCode::InvalidRequestLength"@,
        ZkErrorCode::InvalidMessagesLength => "ZkErrorCode::InvalidMessagesLength"@,
        ZkErrorCode::GetJsonValueFail => "ZkErrorCode::GetJsonValueFail"@,
        ZkErrorCode::InvalidJsonValueSize => "ZkErrorCode::InvalidJsonValueSize"@,
        ZkErrorCode::CannotFoundTimestamp => "ZkErrorCode::CannotFoundTimestamp"@,
        ZkErrorCode::ParseTimestampFailed => "ZkErrorCode::ParseTimestampFailed"@,
        ZkErrorCode::InvalidRequestOrder => "ZkErrorCode::InvalidRequestOrder"@,
        ZkErrorCode::InvalidRequestUrl => "ZkErrorCode::InvalidRequestUrl"@,
        ZkErrorCode::DuplicateAccount => "ZkErrorCode::DuplicateAccount"@,
        ZkErrorCode::NotSupportSource => "ZkErrorCode::NotSupportSource"@,
        ZkErrorCode::UpTimeNotEnough => "ZkErrorCode::UpTimeNotEnough"@,
        ZkErrorCode::EmptyPlainResponse => "ZkErrorCode::EmptyPlainResponse"@,
        ZkErrorCode::GetTaskIdFail => "ZkErrorCode::GetTaskIdFail"@,
        ZkErrorCode::GetReportTxHashFail => "ZkErrorCode::GetReportTxHashFail"@,
        ZkErrorCode::InvalidAttestor => "ZkErrorCode::InvalidAttestor"@,
        ZkErrorCode::MissingRequiredData => "ZkErrorCode::MissingRequiredData"@,
    }
}

impl ZkErrorCode {
    /// The code's number.
    pub fn number(self) -> (n: i16)
        ensures
            n == code_number(self),
    {
        match self {
            ZkErrorCode::ParseAttestationData => 1001,
            ZkErrorCode::GetAttestorAddressFail => 1002,
            ZkErrorCode::VerifyAttestation => 1003,
            ZkErrorCode::InvalidRequestLength => 1004,
            ZkErrorCode::InvalidMessagesLength => 1005,
            ZkErrorCode::GetJsonValueFail => 1006,
            ZkErrorCode::InvalidJsonValueSize => 1007,
            ZkErrorCode::CannotFoundTimestamp => 1008,
            ZkErrorCode::ParseTimestampFailed => 1009,
            ZkErrorCode::InvalidRequestOrder => 1010,
            ZkErrorCode::InvalidRequestUrl => 1011,
            ZkErrorCode::DuplicateAccount => 1012,
            ZkErrorCode::NotSupportSource => 1013,
            ZkErrorCode::UpTimeNotEnough => 1014,
            ZkErrorCode::EmptyPlainResponse => 1015,
            ZkErrorCode::GetTaskIdFail => 1016,
            ZkErrorCode::GetReportTxHashFail => 1017,
            ZkErrorCode::InvalidAttestor => 1018,
            ZkErrorCode::MissingRequiredData => 1019,
        }
    }

    /// The variant's name, such as `ZkErrorCode::InvalidRequestUrl`.
    pub fn name(self) -> (s: String)
        ensures
            s@ == code_name(self),
    {
        let text = match self {
            ZkErrorCode::ParseAttestationData => "ZkErrorCode::ParseAttestationData",
            ZkErrorCode::GetAttestorAddressFail => "ZkErrorCode::GetAttestorAddressFail",
            ZkErrorCode::VerifyAttestation => "ZkErrorCode::VerifyAttestation",
            ZkErrorCode::InvalidRequestLength => "ZkErrorCode::InvalidRequestLength",
            ZkErrorCode::InvalidMessagesLength => "ZkErrorCode::InvalidMessagesLength",
            ZkErrorCode::GetJsonValueFail => "ZkErrorCode::GetJsonValueFail",
            ZkErrorCode::InvalidJsonValueSize => "ZkErrorCode::InvalidJsonValueSize",
            ZkErrorCode::CannotFoundTimestamp => "ZkErrorCode::CannotFoundTimestamp",
            ZkErrorCode::ParseTimestampFailed => "ZkErrorCode::ParseTimestampFailed",
            ZkErrorCode::InvalidRequestOrder => "ZkErrorCode::InvalidRequestOrder",
            ZkErrorCode::InvalidRequestUrl => "ZkErrorCode::InvalidRequestUrl",
            ZkErrorCode::DuplicateAccount => "ZkErrorCode::DuplicateAccount",
            ZkErrorCode::NotSupportSource => "ZkErrorCode::NotSupportSource",
            ZkErrorCode::UpTimeNotEnough => "ZkErrorCode::UpTimeNotEnough",
            ZkErrorCode::EmptyPlainResponse => "ZkErrorCode::EmptyPlainResponse",
            ZkErrorCode::GetTaskIdFail => "ZkErrorCode::GetTaskIdFail",
            ZkErrorCode::GetReportTxHashFail => "ZkErrorCode::GetReportTxHashFail",
            ZkErrorCode::InvalidAttestor => "ZkErrorCode::InvalidAttestor",
            ZkErrorCode::MissingRequiredData => "ZkErrorCode::MissingRequiredData",
        };
        String::from_str(text)
    }
}

/// An error with its code and a message.
#[derive(Debug)]
pub struct ZktlsError {
    code: ZkErrorCode,
    msg: String,
}

impl ZktlsError {
    /// The error's code.
    pub closed spec fn code_of(&self) -> ZkErrorCode {
        self.code
    }

    /// The error's message.
    pub closed spec fn message_of(&self) -> Seq<char> {
        self.msg@
    }

    /// Builds an error from a code and a message.
    pub fn new(code: ZkErrorCode, msg: String) -> (e: ZktlsError)
        ensures
            e.code_of() == code,
            e.message_of() == msg@,
    {
        ZktlsError { code, msg }
    }

    /// Builds an error whose message is the code's own name.
    pub fn of(code: ZkErrorCode) -> (e: ZktlsError)
        ensures
            e.code_of() == code,
            e.message_of() == code_name(code),
    {
        ZktlsError { code, msg: code.name() }
    }

    /// The number of the error's code.
    pub fn icode(&self) -> (n: i16)
        ensures
            n == code_number(self.code_of()),
    {
        self.code.number()
    }

    /// The error's code.
    pub fn code(&self) -> (c: ZkErrorCode)
        ensures
            c == self.code_of(),
    {
        self.code
    }

    /// The error as text: `ZktlsError(code: <number>, msg: <message>)`.
    pub fn describe(&self) -> (s: String)
        ensures
            s@ == "ZktlsError(code: "@ + decimal_i16(code_number(self.code_of())) + ", msg: "@
                + self.message_of() + ")"@,
    {
        let a = concat_text("ZktlsError(code: ", format_i16(self.icode()).as_str());
        let b = concat_text(a.as_str(), ", msg: ");
        let c = concat_text(b.as_str(), self.msg.as_str());
        concat_text(c.as_str(), ")")
    }

    /// A copy of the error's message.
    pub fn msg(&self) -> (m: String)
        ensures
            m@ == self.message_of(),
    {
        self.msg.clone()
    }
}

} // verus!

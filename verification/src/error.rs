//! Assuan error codes and the crate's error type.
use vstd::prelude::*;
use crate::number::{decimal, decimal_bytes};
use crate::text::{bytes_to_string, lemma_ascii_valid_utf8, utf8_of, IntoText};

verus! {

/// The I/O error of the standard library, carried by `Error::Io`.
#[verifier::external_type_specification]
#[verifier::external_body]
pub struct ExIoError(std::io::Error);

/// Error code used in Assuan `ERR` responses, compatible with libgpg-error.
///
/// The codes in common use have a name; any other number is an
/// [`ErrorCode::Other`]. Build a code from its number with [`ErrorCode()`],
/// which gives the named variant whenever the number has one.
#[allow(non_camel_case_types)]
#[derive(Debug, Clone, Copy, PartialEq, Eq, Hash, Structural)]
pub enum ErrorCode {
    /// Success.
    SUCCESS,
    /// General error.
    GENERAL,
    /// Bad passphrase.
    BAD_PASSPHRASE,
    /// Cannot open keyring.
    KEYRING_OPEN,
    /// Invalid passphrase.
    INV_PASSPHRASE,
    /// Invalid keyring.
    INV_KEYRING,
    /// Unexpected error.
    UNEXPECTED,
    /// Syntax error in URI.
    BAD_URI,
    /// Invalid URI.
    INV_URI,
    /// Network error.
    NETWORK,
    /// Invalid value.
    INV_VALUE,
    /// No data.
    NO_DATA,
    /// Bug.
    BUG,
    /// Not supported.
    NOT_SUPPORTED,
    /// Operation timed out.
    TIMEOUT,
    /// Internal error.
    INTERNAL,
    /// Not implemented.
    NOT_IMPLEMENTED,
    /// Invalid data.
    INV_DATA,
    /// Unspecific Assuan server fault.
    ASSUAN_SERVER_FAULT,
    /// General Assuan error.
    ASSUAN,
    /// No pinentry.
    NO_PIN_ENTRY,
    /// Pinentry error.
    PIN_ENTRY,
    /// Operation cancelled.
    CANCELED,
    /// Not confirmed.
    NOT_CONFIRMED,
    /// Configuration error.
    CONFIGURATION,
    /// A locale function failed.
    LOCALE_PROBLEM,
    /// Unknown option.
    UNKNOWN_OPTION,
    /// Unknown command.
    UNKNOWN_COMMAND,
    /// No passphrase given.
    NO_PASSPHRASE,
    /// No PIN given.
    NO_PIN,
    /// Operation fully cancelled.
    FULLY_CANCELED,
    /// General IPC error.
    ASS_GENERAL,
    /// IPC accept call failed.
    ASS_ACCEPT_FAILED,
    /// IPC connect call failed.
    ASS_CONNECT_FAILED,
    /// Invalid IPC response.
    ASS_INV_RESPONSE,
    /// Invalid value passed to IPC.
    ASS_INV_VALUE,
    /// Incomplete line passed to IPC.
    ASS_INCOMPLETE_LINE,
    /// Line passed to IPC too long.
    ASS_LINE_TOO_LONG,
    /// Nested IPC commands.
    ASS_NESTED_COMMANDS,
    /// No data callback in IPC.
    ASS_NO_DATA_CB,
    /// No inquire callback in IPC.
    ASS_NO_INQUIRE_CB,
    /// Not an IPC server.
    ASS_NOT_A_SERVER,
    /// Not an IPC client.
    ASS_NOT_A_CLIENT,
    /// Problem starting IPC server.
    ASS_SERVER_START,
    /// IPC read error.
    ASS_READ_ERROR,
    /// IPC write error.
    ASS_WRITE_ERROR,
    /// Too much data for IPC layer.
    ASS_TOO_MUCH_DATA,
    /// Unexpected IPC command.
    ASS_UNEXPECTED_CMD,
    /// Unknown IPC command.
    ASS_UNKNOWN_CMD,
    /// IPC syntax error.
    ASS_SYNTAX,
    /// IPC call has been cancelled.
    ASS_CANCELED,
    /// No input source for IPC.
    ASS_NO_INPUT,
    /// No output source for IPC.
    ASS_NO_OUTPUT,
    /// IPC parameter error.
    ASS_PARAMETER,
    /// Unknown IPC inquire.
    ASS_UNKNOWN_INQUIRE,
    /// Screen or window too small.
    WINDOW_TOO_SMALL,
    /// Screen or window too large.
    WINDOW_TOO_LARGE,
    /// Required environment variable not set.
    MISSING_ENVVAR,
    /// Unknown system error.
    UNKNOWN_ERRNO,
    /// A code without a name.
    Other(UnnamedCode),
}

/// The number of an error code that has no name of its own.
///
/// Only [`ErrorCode()`] makes one, so that every number has exactly one
/// `ErrorCode`.
#[derive(Debug, Clone, Copy, PartialEq, Eq, Hash, Structural)]
pub struct UnnamedCode(u32);

impl UnnamedCode {
    /// An unnamed code never holds the number of a named one.
    #[verifier::type_invariant]
    spec fn names_no_code(self) -> bool {
        named_code(self.0) is None
    }

    /// The number of the code.
    pub closed spec fn number(self) -> u32 {
        self.0
    }
}

/// The unnamed code with the number `n`.
pub closed spec fn unnamed(n: u32) -> UnnamedCode {
    UnnamedCode(n)
}

/// An unnamed code keeps its number.
pub broadcast proof fn lemma_unnamed_number(n: u32)
    ensures
        #[trigger] unnamed(n).number() == n,
{
}

/// An unnamed code is determined by its number.
pub broadcast proof fn lemma_unnamed_of_number(u: UnnamedCode)
    ensures
        #[trigger] unnamed(u.number()) == u,
{
}

/// The named code with the number `n`, if there is one.
pub open spec fn named_code(n: u32) -> Option<ErrorCode> {
    match n {
        0 => Some(ErrorCode::SUCCESS),
        1 => Some(ErrorCode::GENERAL),
        11 => Some(ErrorCode::BAD_PASSPHRASE),
        13 => Some(ErrorCode::KEYRING_OPEN),
        31 => Some(ErrorCode::INV_PASSPHRASE),
        34 => Some(ErrorCode::INV_KEYRING),
        38 => Some(ErrorCode::UNEXPECTED),
        46 => Some(ErrorCode::BAD_URI),
        47 => Some(ErrorCode::INV_URI),
        48 => Some(ErrorCode::NETWORK),
        55 => Some(ErrorCode::INV_VALUE),
        58 => Some(ErrorCode::NO_DATA),
        59 => Some(ErrorCode::BUG),
        60 => Some(ErrorCode::NOT_SUPPORTED),
        62 => Some(ErrorCode::TIMEOUT),
        63 => Some(ErrorCode::INTERNAL),
        69 => Some(ErrorCode::NOT_IMPLEMENTED),
        79 => Some(ErrorCode::INV_DATA),
        80 => Some(ErrorCode::ASSUAN_SERVER_FAULT),
        81 => Some(ErrorCode::ASSUAN),
        85 => Some(ErrorCode::NO_PIN_ENTRY),
        86 => Some(ErrorCode::PIN_ENTRY),
        99 => Some(ErrorCode::CANCELED),
        114 => Some(ErrorCode::NOT_CONFIRMED),
        115 => Some(ErrorCode::CONFIGURATION),
        166 => Some(ErrorCode::LOCALE_PROBLEM),
        174 => Some(ErrorCode::UNKNOWN_OPTION),
        175 => Some(ErrorCode::UNKNOWN_COMMAND),
        177 => Some(ErrorCode::NO_PASSPHRASE),
        178 => Some(ErrorCode::NO_PIN),
        198 => Some(ErrorCode::FULLY_CANCELED),
        257 => Some(ErrorCode::ASS_GENERAL),
        258 => Some(ErrorCode::ASS_ACCEPT_FAILED),
        259 => Some(ErrorCode::ASS_CONNECT_FAILED),
        260 => Some(ErrorCode::ASS_INV_RESPONSE),
        261 => Some(ErrorCode::ASS_INV_VALUE),
        262 => Some(ErrorCode::ASS_INCOMPLETE_LINE),
        263 => Some(ErrorCode::ASS_LINE_TOO_LONG),
        264 => Some(ErrorCode::ASS_NESTED_COMMANDS),
        265 => Some(ErrorCode::ASS_NO_DATA_CB),
        266 => Some(ErrorCode::ASS_NO_INQUIRE_CB),
        267 => Some(ErrorCode::ASS_NOT_A_SERVER),
        268 => Some(ErrorCode::ASS_NOT_A_CLIENT),
        269 => Some(ErrorCode::ASS_SERVER_START),
        270 => Some(ErrorCode::ASS_READ_ERROR),
        271 => Some(ErrorCode::ASS_WRITE_ERROR),
        273 => Some(ErrorCode::ASS_TOO_MUCH_DATA),
        274 => Some(ErrorCode::ASS_UNEXPECTED_CMD),
        275 => Some(ErrorCode::ASS_UNKNOWN_CMD),
        276 => Some(ErrorCode::ASS_SYNTAX),
        277 => Some(ErrorCode::ASS_CANCELED),
        278 => Some(ErrorCode::ASS_NO_INPUT),
        279 => Some(ErrorCode::ASS_NO_OUTPUT),
        280 => Some(ErrorCode::ASS_PARAMETER),
        281 => Some(ErrorCode::ASS_UNKNOWN_INQUIRE),
        301 => Some(ErrorCode::WINDOW_TOO_SMALL),
        302 => Some(ErrorCode::WINDOW_TOO_LARGE),
        303 => Some(ErrorCode::MISSING_ENVVAR),
        16382 => Some(ErrorCode::UNKNOWN_ERRNO),
        _ => None,
    }
}

/// The code with the number `n`.
pub open spec fn code_of(n: u32) -> ErrorCode {
    match named_code(n) {
        Some(c) => c,
        None => ErrorCode::Other(unnamed(n)),
    }
}

impl ErrorCode {
    /// The number of the code.
    pub open spec fn number(self) -> u32 {
        match self {
            ErrorCode::SUCCESS => 0,
            ErrorCode::GENERAL => 1,
            ErrorCode::BAD_PASSPHRASE => 11,
            ErrorCode::KEYRING_OPEN => 13,
            ErrorCode::INV_PASSPHRASE => 31,
            ErrorCode::INV_KEYRING => 34,
            ErrorCode::UNEXPECTED => 38,
            ErrorCode::BAD_URI => 46,
            ErrorCode::INV_URI => 47,
            ErrorCode::NETWORK => 48,
            ErrorCode::INV_VALUE => 55,
            ErrorCode::NO_DATA => 58,
            ErrorCode::BUG => 59,
            ErrorCode::NOT_SUPPORTED => 60,
            ErrorCode::TIMEOUT => 62,
            ErrorCode::INTERNAL => 63,
            ErrorCode::NOT_IMPLEMENTED => 69,
            ErrorCode::INV_DATA => 79,
            ErrorCode::ASSUAN_SERVER_FAULT => 80,
            ErrorCode::ASSUAN => 81,
            ErrorCode::NO_PIN_ENTRY => 85,
            ErrorCode::PIN_ENTRY => 86,
            ErrorCode::CANCELED => 99,
            ErrorCode::NOT_CONFIRMED => 114,
            ErrorCode::CONFIGURATION => 115,
            ErrorCode::LOCALE_PROBLEM => 166,
            ErrorCode::UNKNOWN_OPTION => 174,
            ErrorCode::UNKNOWN_COMMAND => 175,
            ErrorCode::NO_PASSPHRASE => 177,
            ErrorCode::NO_PIN => 178,
            ErrorCode::FULLY_CANCELED => 198,
            ErrorCode::ASS_GENERAL => 257,
            ErrorCode::ASS_ACCEPT_FAILED => 258,
            ErrorCode::ASS_CONNECT_FAILED => 259,
            ErrorCode::ASS_INV_RESPONSE => 260,
            ErrorCode::ASS_INV_VALUE => 261,
            ErrorCode::ASS_INCOMPLETE_LINE => 262,
            ErrorCode::ASS_LINE_TOO_LONG => 263,
            ErrorCode::ASS_NESTED_COMMANDS => 264,
            ErrorCode::ASS_NO_DATA_CB => 265,
            ErrorCode::ASS_NO_INQUIRE_CB => 266,
            ErrorCode::ASS_NOT_A_SERVER => 267,
            ErrorCode::ASS_NOT_A_CLIENT => 268,
            ErrorCode::ASS_SERVER_START => 269,
            ErrorCode::ASS_READ_ERROR => 270,
            ErrorCode::ASS_WRITE_ERROR => 271,
            ErrorCode::ASS_TOO_MUCH_DATA => 273,
            ErrorCode::ASS_UNEXPECTED_CMD => 274,
            ErrorCode::ASS_UNKNOWN_CMD => 275,
            ErrorCode::ASS_SYNTAX => 276,
            ErrorCode::ASS_CANCELED => 277,
            ErrorCode::ASS_NO_INPUT => 278,
            ErrorCode::ASS_NO_OUTPUT => 279,
            ErrorCode::ASS_PARAMETER => 280,
            ErrorCode::ASS_UNKNOWN_INQUIRE => 281,
            ErrorCode::WINDOW_TOO_SMALL => 301,
            ErrorCode::WINDOW_TOO_LARGE => 302,
            ErrorCode::MISSING_ENVVAR => 303,
            ErrorCode::UNKNOWN_ERRNO => 16382,
            ErrorCode::Other(u) => u.number(),
        }
    }

    /// Whether the code is the one that its number stands for: `Other` is
    /// only used for numbers without a name.
    pub open spec fn is_canonical(self) -> bool {
        self matches ErrorCode::Other(u) ==> named_code(u.number()) is None
    }

    /// The number of the code; the code is the one that number stands for.
    pub fn value(&self) -> (n: u32)
        ensures
            n == self.number(),
            code_of(n) == *self,
    {
        proof {
            if let ErrorCode::Other(u) = self {
                use_type_invariant(u);
                lemma_code_of_number(*self);
            }
        }
        match self {
            ErrorCode::SUCCESS => 0,
            ErrorCode::GENERAL => 1,
            ErrorCode::BAD_PASSPHRASE => 11,
            ErrorCode::KEYRING_OPEN => 13,
            ErrorCode::INV_PASSPHRASE => 31,
            ErrorCode::INV_KEYRING => 34,
            ErrorCode::UNEXPECTED => 38,
            ErrorCode::BAD_URI => 46,
            ErrorCode::INV_URI => 47,
            ErrorCode::NETWORK => 48,
            ErrorCode::INV_VALUE => 55,
            ErrorCode::NO_DATA => 58,
            ErrorCode::BUG => 59,
            ErrorCode::NOT_SUPPORTED => 60,
            ErrorCode::TIMEOUT => 62,
            ErrorCode::INTERNAL => 63,
            ErrorCode::NOT_IMPLEMENTED => 69,
            ErrorCode::INV_DATA => 79,
            ErrorCode::ASSUAN_SERVER_FAULT => 80,
            ErrorCode::ASSUAN => 81,
            ErrorCode::NO_PIN_ENTRY => 85,
            ErrorCode::PIN_ENTRY => 86,
            ErrorCode::CANCELED => 99,
            ErrorCode::NOT_CONFIRMED => 114,
            ErrorCode::CONFIGURATION => 115,
            ErrorCode::LOCALE_PROBLEM => 166,
            ErrorCode::UNKNOWN_OPTION => 174,
            ErrorCode::UNKNOWN_COMMAND => 175,
            ErrorCode::NO_PASSPHRASE => 177,
            ErrorCode::NO_PIN => 178,
            ErrorCode::FULLY_CANCELED => 198,
            ErrorCode::ASS_GENERAL => 257,
            ErrorCode::ASS_ACCEPT_FAILED => 258,
            ErrorCode::ASS_CONNECT_FAILED => 259,
            ErrorCode::ASS_INV_RESPONSE => 260,
            ErrorCode::ASS_INV_VALUE => 261,
            ErrorCode::ASS_INCOMPLETE_LINE => 262,
            ErrorCode::ASS_LINE_TOO_LONG => 263,
            ErrorCode::ASS_NESTED_COMMANDS => 264,
            ErrorCode::ASS_NO_DATA_CB => 265,
            ErrorCode::ASS_NO_INQUIRE_CB => 266,
            ErrorCode::ASS_NOT_A_SERVER => 267,
            ErrorCode::ASS_NOT_A_CLIENT => 268,
            ErrorCode::ASS_SERVER_START => 269,
            ErrorCode::ASS_READ_ERROR => 270,
            ErrorCode::ASS_WRITE_ERROR => 271,
            ErrorCode::ASS_TOO_MUCH_DATA => 273,
            ErrorCode::ASS_UNEXPECTED_CMD => 274,
            ErrorCode::ASS_UNKNOWN_CMD => 275,
            ErrorCode::ASS_SYNTAX => 276,
            ErrorCode::ASS_CANCELED => 277,
            ErrorCode::ASS_NO_INPUT => 278,
            ErrorCode::ASS_NO_OUTPUT => 279,
            ErrorCode::ASS_PARAMETER => 280,
            ErrorCode::ASS_UNKNOWN_INQUIRE => 281,
            ErrorCode::WINDOW_TOO_SMALL => 301,
            ErrorCode::WINDOW_TOO_LARGE => 302,
            ErrorCode::MISSING_ENVVAR => 303,
            ErrorCode::UNKNOWN_ERRNO => 16382,
            ErrorCode::Other(u) => u.0,
        }
    }
}

/// Every number has a canonical code, and that code has the number.
pub proof fn lemma_code_of(n: u32)
    ensures
        code_of(n).number() == n,
        code_of(n).is_canonical(),
{
    broadcast use lemma_unnamed_number;

}

/// A canonical code is the code of its number.
pub proof fn lemma_code_of_number(c: ErrorCode)
    requires
        c.is_canonical(),
    ensures
        code_of(c.number()) == c,
{
    broadcast use lemma_unnamed_of_number;

}

/// Each named code carries its libgpg-error number, and that number gives
/// the named code back.
pub proof fn lemma_code_numbers()
    ensures
        ErrorCode::SUCCESS.number() == 0 && code_of(0) == ErrorCode::SUCCESS,
        ErrorCode::GENERAL.number() == 1 && code_of(1) == ErrorCode::GENERAL,
        ErrorCode::BAD_PASSPHRASE.number() == 11 && code_of(11) == ErrorCode::BAD_PASSPHRASE,
        ErrorCode::KEYRING_OPEN.number() == 13 && code_of(13) == ErrorCode::KEYRING_OPEN,
        ErrorCode::INV_PASSPHRASE.number() == 31 && code_of(31) == ErrorCode::INV_PASSPHRASE,
        ErrorCode::INV_KEYRING.number() == 34 && code_of(34) == ErrorCode::INV_KEYRING,
        ErrorCode::UNEXPECTED.number() == 38 && code_of(38) == ErrorCode::UNEXPECTED,
        ErrorCode::BAD_URI.number() == 46 && code_of(46) == ErrorCode::BAD_URI,
        ErrorCode::INV_URI.number() == 47 && code_of(47) == ErrorCode::INV_URI,
        ErrorCode::NETWORK.number() == 48 && code_of(48) == ErrorCode::NETWORK,
        ErrorCode::INV_VALUE.number() == 55 && code_of(55) == ErrorCode::INV_VALUE,
        ErrorCode::NO_DATA.number() == 58 && code_of(58) == ErrorCode::NO_DATA,
        ErrorCode::BUG.number() == 59 && code_of(59) == ErrorCode::BUG,
        ErrorCode::NOT_SUPPORTED.number() == 60 && code_of(60) == ErrorCode::NOT_SUPPORTED,
        ErrorCode::TIMEOUT.number() == 62 && code_of(62) == ErrorCode::TIMEOUT,
        ErrorCode::INTERNAL.number() == 63 && code_of(63) == ErrorCode::INTERNAL,
        ErrorCode::NOT_IMPLEMENTED.number() == 69 && code_of(69) == ErrorCode::NOT_IMPLEMENTED,
        ErrorCode::INV_DATA.number() == 79 && code_of(79) == ErrorCode::INV_DATA,
        ErrorCode::ASSUAN_SERVER_FAULT.number() == 80 && code_of(80) == ErrorCode::ASSUAN_SERVER_FAULT,
        ErrorCode::ASSUAN.number() == 81 && code_of(81) == ErrorCode::ASSUAN,
        ErrorCode::NO_PIN_ENTRY.number() == 85 && code_of(85) == ErrorCode::NO_PIN_ENTRY,
        ErrorCode::PIN_ENTRY.number() == 86 && code_of(86) == ErrorCode::PIN_ENTRY,
        ErrorCode::CANCELED.number() == 99 && code_of(99) == ErrorCode::CANCELED,
        ErrorCode::NOT_CONFIRMED.number() == 114 && code_of(114) == ErrorCode::NOT_CONFIRMED,
        ErrorCode::CONFIGURATION.number() == 115 && code_of(115) == ErrorCode::CONFIGURATION,
        ErrorCode::LOCALE_PROBLEM.number() == 166 && code_of(166) == ErrorCode::LOCALE_PROBLEM,
        ErrorCode::UNKNOWN_OPTION.number() == 174 && code_of(174) == ErrorCode::UNKNOWN_OPTION,
        ErrorCode::UNKNOWN_COMMAND.number() == 175 && code_of(175) == ErrorCode::UNKNOWN_COMMAND,
        ErrorCode::NO_PASSPHRASE.number() == 177 && code_of(177) == ErrorCode::NO_PASSPHRASE,
        ErrorCode::NO_PIN.number() == 178 && code_of(178) == ErrorCode::NO_PIN,
        ErrorCode::FULLY_CANCELED.number() == 198 && code_of(198) == ErrorCode::FULLY_CANCELED,
        ErrorCode::ASS_GENERAL.number() == 257 && code_of(257) == ErrorCode::ASS_GENERAL,
        ErrorCode::ASS_ACCEPT_FAILED.number() == 258 && code_of(258) == ErrorCode::ASS_ACCEPT_FAILED,
        ErrorCode::ASS_CONNECT_FAILED.number() == 259 && code_of(259) == ErrorCode::ASS_CONNECT_FAILED,
        ErrorCode::ASS_INV_RESPONSE.number() == 260 && code_of(260) == ErrorCode::ASS_INV_RESPONSE,
        ErrorCode::ASS_INV_VALUE.number() == 261 && code_of(261) == ErrorCode::ASS_INV_VALUE,
        ErrorCode::ASS_INCOMPLETE_LINE.number() == 262 && code_of(262) == ErrorCode::ASS_INCOMPLETE_LINE,
        ErrorCode::ASS_LINE_TOO_LONG.number() == 263 && code_of(263) == ErrorCode::ASS_LINE_TOO_LONG,
        ErrorCode::ASS_NESTED_COMMANDS.number() == 264 && code_of(264) == ErrorCode::ASS_NESTED_COMMANDS,
        ErrorCode::ASS_NO_DATA_CB.number() == 265 && code_of(265) == ErrorCode::ASS_NO_DATA_CB,
        ErrorCode::ASS_NO_INQUIRE_CB.number() == 266 && code_of(266) == ErrorCode::ASS_NO_INQUIRE_CB,
        ErrorCode::ASS_NOT_A_SERVER.number() == 267 && code_of(267) == ErrorCode::ASS_NOT_A_SERVER,
        ErrorCode::ASS_NOT_A_CLIENT.number() == 268 && code_of(268) == ErrorCode::ASS_NOT_A_CLIENT,
        ErrorCode::ASS_SERVER_START.number() == 269 && code_of(269) == ErrorCode::ASS_SERVER_START,
        ErrorCode::ASS_READ_ERROR.number() == 270 && code_of(270) == ErrorCode::ASS_READ_ERROR,
        ErrorCode::ASS_WRITE_ERROR.number() == 271 && code_of(271) == ErrorCode::ASS_WRITE_ERROR,
        ErrorCode::ASS_TOO_MUCH_DATA.number() == 273 && code_of(273) == ErrorCode::ASS_TOO_MUCH_DATA,
        ErrorCode::ASS_UNEXPECTED_CMD.number() == 274 && code_of(274) == ErrorCode::ASS_UNEXPECTED_CMD,
        ErrorCode::ASS_UNKNOWN_CMD.number() == 275 && code_of(275) == ErrorCode::ASS_UNKNOWN_CMD,
        ErrorCode::ASS_SYNTAX.number() == 276 && code_of(276) == ErrorCode::ASS_SYNTAX,
        ErrorCode::ASS_CANCELED.number() == 277 && code_of(277) == ErrorCode::ASS_CANCELED,
        ErrorCode::ASS_NO_INPUT.number() == 278 && code_of(278) == ErrorCode::ASS_NO_INPUT,
        ErrorCode::ASS_NO_OUTPUT.number() == 279 && code_of(279) == ErrorCode::ASS_NO_OUTPUT,
        ErrorCode::ASS_PARAMETER.number() == 280 && code_of(280) == ErrorCode::ASS_PARAMETER,
        ErrorCode::ASS_UNKNOWN_INQUIRE.number() == 281 && code_of(281) == ErrorCode::ASS_UNKNOWN_INQUIRE,
        ErrorCode::WINDOW_TOO_SMALL.number() == 301 && code_of(301) == ErrorCode::WINDOW_TOO_SMALL,
        ErrorCode::WINDOW_TOO_LARGE.number() == 302 && code_of(302) == ErrorCode::WINDOW_TOO_LARGE,
        ErrorCode::MISSING_ENVVAR.number() == 303 && code_of(303) == ErrorCode::MISSING_ENVVAR,
        ErrorCode::UNKNOWN_ERRNO.number() == 16382 && code_of(16382) == ErrorCode::UNKNOWN_ERRNO,
{
}

/// The error code with the number `n`.
#[allow(non_snake_case)]
pub fn ErrorCode(n: u32) -> (c: ErrorCode)
    ensures
        c == code_of(n),
{
    match n {
        0 => ErrorCode::SUCCESS,
        1 => ErrorCode::GENERAL,
        11 => ErrorCode::BAD_PASSPHRASE,
        13 => ErrorCode::KEYRING_OPEN,
        31 => ErrorCode::INV_PASSPHRASE,
        34 => ErrorCode::INV_KEYRING,
        38 => ErrorCode::UNEXPECTED,
        46 => ErrorCode::BAD_URI,
        47 => ErrorCode::INV_URI,
        48 => ErrorCode::NETWORK,
        55 => ErrorCode::INV_VALUE,
        58 => ErrorCode::NO_DATA,
        59 => ErrorCode::BUG,
        60 => ErrorCode::NOT_SUPPORTED,
        62 => ErrorCode::TIMEOUT,
        63 => ErrorCode::INTERNAL,
        69 => ErrorCode::NOT_IMPLEMENTED,
        79 => ErrorCode::INV_DATA,
        80 => ErrorCode::ASSUAN_SERVER_FAULT,
        81 => ErrorCode::ASSUAN,
        85 => ErrorCode::NO_PIN_ENTRY,
        86 => ErrorCode::PIN_ENTRY,
        99 => ErrorCode::CANCELED,
        114 => ErrorCode::NOT_CONFIRMED,
        115 => ErrorCode::CONFIGURATION,
        166 => ErrorCode::LOCALE_PROBLEM,
        174 => ErrorCode::UNKNOWN_OPTION,
        175 => ErrorCode::UNKNOWN_COMMAND,
        177 => ErrorCode::NO_PASSPHRASE,
        178 => ErrorCode::NO_PIN,
        198 => ErrorCode::FULLY_CANCELED,
        257 => ErrorCode::ASS_GENERAL,
        258 => ErrorCode::ASS_ACCEPT_FAILED,
        259 => ErrorCode::ASS_CONNECT_FAILED,
        260 => ErrorCode::ASS_INV_RESPONSE,
        261 => ErrorCode::ASS_INV_VALUE,
        262 => ErrorCode::ASS_INCOMPLETE_LINE,
        263 => ErrorCode::ASS_LINE_TOO_LONG,
        264 => ErrorCode::ASS_NESTED_COMMANDS,
        265 => ErrorCode::ASS_NO_DATA_CB,
        266 => ErrorCode::ASS_NO_INQUIRE_CB,
        267 => ErrorCode::ASS_NOT_A_SERVER,
        268 => ErrorCode::ASS_NOT_A_CLIENT,
        269 => ErrorCode::ASS_SERVER_START,
        270 => ErrorCode::ASS_READ_ERROR,
        271 => ErrorCode::ASS_WRITE_ERROR,
        273 => ErrorCode::ASS_TOO_MUCH_DATA,
        274 => ErrorCode::ASS_UNEXPECTED_CMD,
        275 => ErrorCode::ASS_UNKNOWN_CMD,
        276 => ErrorCode::ASS_SYNTAX,
        277 => ErrorCode::ASS_CANCELED,
        278 => ErrorCode::ASS_NO_INPUT,
        279 => ErrorCode::ASS_NO_OUTPUT,
        280 => ErrorCode::ASS_PARAMETER,
        281 => ErrorCode::ASS_UNKNOWN_INQUIRE,
        301 => ErrorCode::WINDOW_TOO_SMALL,
        302 => ErrorCode::WINDOW_TOO_LARGE,
        303 => ErrorCode::MISSING_ENVVAR,
        16382 => ErrorCode::UNKNOWN_ERRNO,
        _ => ErrorCode::Other(UnnamedCode(n)),
    }
}

impl ErrorCode {
    /// The decimal text of the code's number, as `ERR` lines carry it.
    pub fn to_string(&self) -> (s: String)
        ensures
            utf8_of(s@) == decimal(self.number() as nat),
    {
        let digits = decimal_bytes(self.value());
        proof {
            crate::number::lemma_decimal(self.number() as nat);
            lemma_ascii_valid_utf8(digits@);
        }
        bytes_to_string(digits.as_slice())
    }
}

/// Errors that can occur when using the crate.
#[derive(Debug)]
pub enum Error {
    /// A protocol-level error: the code and message of an `ERR` line.
    Protocol {
        /// The error code.
        code: ErrorCode,
        /// The optional message.
        msg: Option<String>,
    },
    /// An I/O error of the underlying transport.
    Io(std::io::Error),
}

/// Whether `e` is the protocol error with code `code` and message `msg`.
pub open spec fn is_protocol_error(e: Error, code: ErrorCode, msg: Seq<char>) -> bool {
    e matches Error::Protocol { code: c, msg: Some(m) } && c == code && m@ == msg
}

/// The error for a line longer than `MAX_LINE_SIZE`.
pub open spec fn is_line_too_long(e: Error) -> bool {
    is_protocol_error(e, ErrorCode::ASS_LINE_TOO_LONG, "line too long"@)
}

/// The error for a line that does not parse.
pub open spec fn is_malformed(e: Error) -> bool {
    is_protocol_error(e, ErrorCode::ASS_INV_VALUE, "malformed line"@)
}

impl Error {
    /// Create a new protocol-level error with the given code and message.
    pub fn new<M: IntoText>(code: ErrorCode, message: M) -> (e: Self)
        ensures
            is_protocol_error(e, code, message.text()),
    {
        Error::Protocol { code, msg: Some(message.into_text()) }
    }

    /// The error for a line longer than `MAX_LINE_SIZE`.
    pub fn line_too_long() -> (e: Self)
        ensures
            is_line_too_long(e),
    {
        Error::new(ErrorCode::ASS_LINE_TOO_LONG, "line too long")
    }

    /// The error for a line that does not parse.
    pub fn malformed() -> (e: Self)
        ensures
            is_malformed(e),
    {
        Error::new(ErrorCode::ASS_INV_VALUE, "malformed line")
    }
}

impl From<ErrorCode> for Error {
    fn from(code: ErrorCode) -> (e: Self) {
        Error::Protocol { code, msg: None }
    }
}

impl vstd::std_specs::convert::FromSpecImpl<ErrorCode> for Error {
    open spec fn obeys_from_spec() -> bool {
        true
    }

    open spec fn from_spec(code: ErrorCode) -> Error {
        Error::Protocol { code, msg: None }
    }
}

/// The text that the `Display` impl of `std::io::Error` shows for `e`.
///
/// Nothing is claimed of the text: for an error of the operating system it
/// comes from the system's own message table.
#[verifier::external_body]
fn io_error_text(e: &std::io::Error) -> (s: String) {
    format!("{e}")
}

/// The prefix of the message of an error made from an I/O error: `I/O: `.
pub open spec fn io_prefix() -> Seq<u8> {
    seq![0x49u8, 0x2f, 0x4f, 0x3a, 0x20]
}

/// Whether `e` is the protocol error made from an I/O error whose text is
/// `text`: a general error whose message is `I/O: ` and then `text`.
pub open spec fn is_io_error_for(e: Error, text: Seq<char>) -> bool {
    e matches Error::Protocol { code, msg: Some(m) } && code == ErrorCode::GENERAL && utf8_of(m@)
        == io_prefix() + utf8_of(text)
}

/// Whether `e` is the protocol error made from some I/O error's text.
pub open spec fn is_from_io(e: Error) -> bool {
    exists|t: Seq<char>| #[trigger] is_io_error_for(e, t)
}

impl Error {
    /// Create the protocol error for an I/O error whose text is `text`: a
    /// general error whose message is `I/O: ` and then `text`.
    pub fn from_io_text(text: &str) -> (r: Self)
        ensures
            is_io_error_for(r, text@),
    {
        let prefix: &[u8] = &[0x49, 0x2f, 0x4f, 0x3a, 0x20];
        let mut out: Vec<u8> = Vec::new();
        crate::text::push_all(&mut out, prefix);
        crate::text::push_all(&mut out, text.as_bytes());
        proof {
            lemma_ascii_valid_utf8(prefix@);
            vstd::utf8::encode_utf8_valid_utf8(text@);
            vstd::utf8::valid_utf8_concat(prefix@, utf8_of(text@));
        }
        assert(prefix@ == io_prefix());
        let msg = bytes_to_string(out.as_slice());
        Error::Protocol { code: ErrorCode::GENERAL, msg: Some(msg) }
    }

    /// Create a protocol error from an I/O error: a general error whose
    /// message is `I/O: ` and the I/O error's text.
    pub fn from_io(e: std::io::Error) -> (r: Self)
        ensures
            is_from_io(r),
    {
        let text = io_error_text(&e);
        let r = Error::from_io_text(text.as_str());
        assert(is_io_error_for(r, text@));
        r
    }
}

impl From<std::io::Error> for Error {
    fn from(e: std::io::Error) -> (r: Self)
        ensures
            is_from_io(r),
    {
        Error::from_io(e)
    }
}

impl vstd::std_specs::convert::FromSpecImpl<std::io::Error> for Error {
    /// The message holds text that the operating system may supply, so the
    /// error is not pinned down as a value; `from` states its shape instead.
    open spec fn obeys_from_spec() -> bool {
        false
    }

    open spec fn from_spec(e: std::io::Error) -> Error {
        choose|r: Error| is_from_io(r)
    }
}

} // verus!

//! Uniform log lines. Each function returns the exact line that is written
//! to the log, so the format is fixed here and the writing is left to the
//! caller's logger.
use vstd::prelude::*;

verus! {

/// `libp2p: [<protocol>] <message>`.
pub open spec fn protocol_line(protocol: Seq<char>, message: Seq<char>) -> Seq<char> {
    "libp2p: ["@ + protocol + "] "@ + message
}

/// `successful` or `failed`.
pub open spec fn status_word(success: bool) -> Seq<char> {
    if success {
        "successful"@
    } else {
        "failed"@
    }
}

/// `crypto: <operation> <status>[: <detail>]`.
pub open spec fn crypto_line(operation: Seq<char>, success: bool, details: Option<Seq<char>>) -> Seq<
    char,
> {
    let head = "crypto: "@ + operation + " "@ + status_word(success);
    match details {
        Some(d) => head + ": "@ + d,
        None => head,
    }
}

fn protocol_text(protocol: &str, message: &str) -> (s: String)
    ensures
        s@ == protocol_line(protocol@, message@),
{
    let s = String::from_str("libp2p: [").concat(protocol).concat("] ").concat(message);
    s
}

/// Structured logger for protocol-specific messages.
pub struct ProtocolLogger;

impl ProtocolLogger {
    /// The line of a protocol-specific warning.
    pub fn warn(protocol: &str, message: &str) -> (s: String)
        ensures
            s@ == protocol_line(protocol@, message@),
    {
        protocol_text(protocol, message)
    }

    /// The line of a protocol-specific info message.
    pub fn info(protocol: &str, message: &str) -> (s: String)
        ensures
            s@ == protocol_line(protocol@, message@),
    {
        protocol_text(protocol, message)
    }

    /// The line of a protocol-specific debug message.
    pub fn debug(protocol: &str, message: &str) -> (s: String)
        ensures
            s@ == protocol_line(protocol@, message@),
    {
        protocol_text(protocol, message)
    }

    /// The line of a protocol-specific error message.
    pub fn error(protocol: &str, message: &str) -> (s: String)
        ensures
            s@ == protocol_line(protocol@, message@),
    {
        protocol_text(protocol, message)
    }

    /// The warning line of a failure with a peer:
    /// `libp2p: [<protocol>] <direction> failure with peer <peer>: <error>`.
    pub fn log_failure(protocol: &str, direction: &str, peer: &str, error: &str) -> (s: String)
        ensures
            s@ == protocol_line(protocol@, direction@ + " failure with peer "@ + peer@ + ": "@ + error@),
    {
        let message = String::from_str(direction).concat(" failure with peer ").concat(peer).concat(
            ": ",
        ).concat(error);
        let s = protocol_text(protocol, message.as_str());
        proof {
            assert(message@ =~= direction@ + " failure with peer "@ + peer@ + ": "@ + error@);
        }
        s
    }

    /// The info line of a successful operation, naming the peer when there
    /// is one.
    pub fn log_success(protocol: &str, operation: &str, peer: Option<&str>) -> (s: String)
        ensures
            s@ == match peer {
                Some(p) => protocol_line(protocol@, operation@ + " successful with peer "@ + p@),
                None => protocol_line(protocol@, operation@ + " successful"@),
            },
    {
        match peer {
            Some(p) => {
                let message = String::from_str(operation).concat(" successful with peer ").concat(p);
                protocol_text(protocol, message.as_str())
            },
            None => {
                let message = String::from_str(operation).concat(" successful");
                protocol_text(protocol, message.as_str())
            },
        }
    }
}

/// Crypto-specific logging utilities.
pub struct CryptoLogger;

impl CryptoLogger {
    /// The info line of an encryption or decryption operation.
    pub fn log_crypto_operation(operation: &str, success: bool, details: Option<&str>) -> (s:
        String)
        ensures
            s@ == crypto_line(
                operation@,
                success,
                match details {
                    Some(d) => Some(d@),
                    None => None,
                },
            ),
    {
        let status = if success {
            "successful"
        } else {
            "failed"
        };
        let head = String::from_str("crypto: ").concat(operation).concat(" ").concat(status);
        match details {
            Some(d) => head.concat(": ").concat(d),
            None => head,
        }
    }

    /// The line of a signature verification result (debug when valid,
    /// warning when not), naming the peer when there is one.
    pub fn log_signature_verification(valid: bool, peer: Option<&str>) -> (s: String)
        ensures
            s@ == ("signature verification "@ + (if valid {
                "successful"@
            } else {
                "failed"@
            }) + match peer {
                Some(p) => " for peer: "@ + p@,
                None => Seq::<char>::empty(),
            }),
    {
        let status = if valid {
            "successful"
        } else {
            "failed"
        };
        let head = String::from_str("signature verification ").concat(status);
        match peer {
            Some(p) => head.concat(" for peer: ").concat(p),
            None => {
                proof {
                    assert(head@ + Seq::<char>::empty() =~= head@);
                }
                head
            },
        }
    }
}

} // verus!

//! What a finished backend command amounts to: its text, or a failure.
//!
//! Running the command is the caller's business. This module takes what the
//! run left behind and classifies it.

use crate::text::{trim, trimmed};
use vstd::prelude::*;
use vstd::utf8::{decode_utf8, valid_utf8};

verus! {

/// Why a backend command gave no text.
#[derive(Clone, Copy, Debug, PartialEq, Eq, Structural)]
pub enum CommandError {
    /// The command could not be started, or its output could not be read.
    NotRun,
    /// The command ran and ended with a status other than zero.
    Unsuccessful,
}

/// How the run of a backend command ended.
#[derive(Debug, PartialEq, Eq)]
pub enum Completion {
    /// The command could not be started, or its output could not be read.
    NotRun,
    /// The command ran to its end.
    Exited {
        /// Whether it ended with status zero.
        success: bool,
        /// What it wrote to its standard output.
        stdout: Vec<u8>,
    },
}

/// What a backend command answered: its output as text, or a failure.
pub type Reply = Result<String, CommandError>;

/// A reply with its text as a sequence of characters.
pub type ReplyView = Result<Seq<char>, CommandError>;

/// The view of a reply.
pub open spec fn reply_view(reply: Reply) -> ReplyView {
    match reply {
        Ok(text) => Ok(text@),
        Err(e) => Err(e),
    }
}

/// The views of a sequence of replies.
pub open spec fn replies_view(replies: Seq<Reply>) -> Seq<ReplyView> {
    replies.map_values(|r: Reply| reply_view(r))
}

/// The text that lossy decoding makes of `bytes`: well-formed UTF-8 is
/// decoded, and each ill-formed part is replaced by U+FFFD.
pub uninterp spec fn lossy_text(bytes: Seq<u8>) -> Seq<char>;

/// The reply that a completion amounts to.
pub open spec fn output_of(completion: Completion) -> ReplyView {
    match completion {
        Completion::NotRun => Err(CommandError::NotRun),
        Completion::Exited { success, stdout } => if success {
            Ok(trimmed(lossy_text(stdout@)))
        } else {
            Err(CommandError::Unsuccessful)
        },
    }
}

/// Calls `String::from_utf8_lossy` and takes the text as an owned string.
///
/// Trusted: the text depends on the bytes alone, and for bytes that are
/// well-formed UTF-8 it is the text that they encode.
#[verifier::external_body]
fn decode_lossy(bytes: &Vec<u8>) -> (text: String)
    ensures
        text@ == lossy_text(bytes@),
        valid_utf8(bytes@) ==> text@ == decode_utf8(bytes@),
{
    String::from_utf8_lossy(bytes).into_owned()
}

/// Classifies a finished command: the trimmed, lossily decoded text of its
/// standard output where it ran and ended with status zero, a failure
/// otherwise.
pub fn command_output(completion: &Completion) -> (reply: Reply)
    ensures
        reply_view(reply) == output_of(*completion),
        *completion matches Completion::Exited { success, stdout } ==> (success && valid_utf8(
            stdout@,
        ) ==> reply_view(reply) == Ok::<Seq<char>, CommandError>(trimmed(decode_utf8(stdout@)))),
{
    match completion {
        Completion::NotRun => Err(CommandError::NotRun),
        Completion::Exited { success, stdout } => {
            if *success {
                let text = decode_lossy(stdout);
                Ok(trim(text.as_str()))
            } else {
                Err(CommandError::Unsuccessful)
            }
        },
    }
}

} // verus!

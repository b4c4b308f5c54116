//! Finding out what an identifier refers to: a user, a guild or a channel.
//!
//! The platform is asked whether the identifier is a user, then whether it is
//! a guild, then whether it is a channel. The caller makes the requests; this
//! module decides after each reply whether the answer is known, the attempt
//! has failed, or the next question is due.

use crate::channel::{get_channel_inner_type, kind_name, Channel, IdentifierType};
use vstd::prelude::*;
use vstd::string::*;

verus! {

/// How to call what an identifier refers to.
pub open spec fn id_name(id_type: IdentifierType) -> Seq<char> {
    match id_type {
        IdentifierType::User => "user"@,
        IdentifierType::Guild => "guild"@,
        IdentifierType::Channel(kind) => kind_name(kind.number()) + " channel"@,
    }
}

/// A word or two for what an identifier refers to, for messages to the
/// operator.
pub fn get_id_name(destination_type: IdentifierType) -> (name: String)
    ensures
        name@ == id_name(destination_type),
{
    match destination_type {
        IdentifierType::User => "user".to_owned(),
        IdentifierType::Guild => "guild".to_owned(),
        IdentifierType::Channel(channel_type) => {
            let mut name = channel_type.name();
            name.append(" channel");
            name
        },
    }
}

/// One of the three questions, in the order in which they are asked.
#[derive(Clone, Copy, Debug, PartialEq, Eq, Structural)]
pub enum Probe {
    User,
    Guild,
    Channel,
}

/// Why a question was not answered with the entity.
#[derive(Clone, Copy, Debug, PartialEq, Eq, Structural)]
pub struct ProbeFailure {
    /// The error code of the platform, where the platform answered the
    /// request with an error; `None` for any other failure.
    pub code: Option<u32>,
}

/// The platform's answer to one question.
#[derive(Clone, Copy, Debug, PartialEq, Eq, Structural)]
pub enum ProbeReply {
    /// There is such an entity.
    Found,
    /// There is such a channel, and this is it.
    FoundChannel(Channel),
    Failed(ProbeFailure),
}

/// Why an identifier could not be identified.
#[derive(Clone, Copy, Debug, PartialEq, Eq, Structural)]
pub enum IdentifyError {
    /// The question about `probe` failed for a reason other than that there
    /// is no such entity.
    Failed { probe: Probe, failure: ProbeFailure },
    /// The identifier is no user, no guild and no channel that can be seen.
    UnknownIdType { id: u64 },
}

/// What follows a reply.
#[derive(Clone, Copy, Debug, PartialEq, Eq, Structural)]
pub enum Identification {
    /// The next question to ask.
    Ask(Probe),
    Known(IdentifierType),
    Unknown(IdentifyError),
}

/// The platform's codes for "there is no such entity" are those from 10000
/// up to 19999.
pub open spec fn is_unknown_entity_spec(failure: ProbeFailure) -> bool {
    failure.code matches Some(code) && 10000 <= code < 20000
}

/// Whether a question failed because there is no such entity.
#[verifier::when_used_as_spec(is_unknown_entity_spec)]
pub fn is_unknown_entity(failure: ProbeFailure) -> (unknown: bool)
    ensures
        unknown == is_unknown_entity_spec(failure),
{
    match failure.code {
        Some(code) => 10000 <= code && code < 20000,
        None => false,
    }
}

impl Probe {
    /// The question to begin with.
    pub fn first() -> (probe: Probe)
        ensures
            probe == Probe::User,
    {
        Probe::User
    }
}

/// What follows the reply to the question `asked` about the identifier `id`.
pub open spec fn identified(id: u64, asked: Probe, reply: ProbeReply) -> Identification {
    match asked {
        Probe::User => match reply {
            ProbeReply::Failed(failure) => if is_unknown_entity(failure) {
                Identification::Ask(Probe::Guild)
            } else {
                Identification::Unknown(IdentifyError::Failed { probe: asked, failure })
            },
            _ => Identification::Known(IdentifierType::User),
        },
        Probe::Guild => match reply {
            ProbeReply::Failed(failure) => if is_unknown_entity(failure) {
                Identification::Ask(Probe::Channel)
            } else {
                Identification::Unknown(IdentifyError::Failed { probe: asked, failure })
            },
            _ => Identification::Known(IdentifierType::Guild),
        },
        Probe::Channel => match reply {
            ProbeReply::FoundChannel(channel) => match channel.kind() {
                Some(kind) => Identification::Known(IdentifierType::Channel(kind)),
                None => Identification::Unknown(IdentifyError::UnknownIdType { id }),
            },
            _ => Identification::Unknown(IdentifyError::UnknownIdType { id }),
        },
    }
}

/// Decides what follows the reply to one question about `id`: a user or a
/// guild that was found is the answer; a question that failed because there
/// is no such entity leads to the next; any other failure of the first two
/// questions ends the attempt with that failure; a channel that was found
/// gives its kind, and without a channel the identifier stays unknown.
pub fn get_id_type(id: u64, asked: Probe, reply: ProbeReply) -> (next: Identification)
    requires
        asked is Channel ==> (reply matches ProbeReply::FoundChannel(channel)
            ==> channel.has_inner_type()),
    ensures
        next == identified(id, asked, reply),
{
    match asked {
        Probe::User => match reply {
            ProbeReply::Failed(failure) => if is_unknown_entity(failure) {
                Identification::Ask(Probe::Guild)
            } else {
                Identification::Unknown(IdentifyError::Failed { probe: asked, failure })
            },
            _ => Identification::Known(IdentifierType::User),
        },
        Probe::Guild => match reply {
            ProbeReply::Failed(failure) => if is_unknown_entity(failure) {
                Identification::Ask(Probe::Channel)
            } else {
                Identification::Unknown(IdentifyError::Failed { probe: asked, failure })
            },
            _ => Identification::Known(IdentifierType::Guild),
        },
        Probe::Channel => match reply {
            ProbeReply::FoundChannel(channel) => Identification::Known(
                IdentifierType::Channel(get_channel_inner_type(channel)),
            ),
            _ => Identification::Unknown(IdentifyError::UnknownIdType { id }),
        },
    }
}

} // verus!

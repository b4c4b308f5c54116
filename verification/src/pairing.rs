//! Which source can be moved into which destination.

use crate::channel::{ChannelType, IdentifierType};
use crate::identification::{get_id_name, id_name};
use vstd::prelude::*;
use vstd::string::*;

verus! {

/// The source and the destination that were refused.
#[derive(Clone, Copy, Debug, PartialEq, Eq, Structural)]
pub struct IncompatibleTypes {
    pub source: IdentifierType,
    pub destination: IdentifierType,
}

/// A kind of channel that holds channels, not messages.
pub open spec fn groups_channels(id_type: IdentifierType) -> bool {
    id_type == IdentifierType::Channel(ChannelType::Category) || id_type
        == IdentifierType::Channel(ChannelType::Directory)
}

/// A kind of channel that has no threads of its own to take those of a forum.
pub open spec fn takes_no_threads(id_type: IdentifierType) -> bool {
    id_type == IdentifierType::Channel(ChannelType::GroupDm) || id_type
        == IdentifierType::Channel(ChannelType::NewsThread) || id_type
        == IdentifierType::Channel(ChannelType::PublicThread) || id_type
        == IdentifierType::Channel(ChannelType::PrivateThread)
}

/// A whole guild cannot be moved, nothing can be moved to a user, channels
/// that group channels take no part, and a forum cannot be moved into a
/// group conversation or a thread.
pub open spec fn incompatible(source: IdentifierType, destination: IdentifierType) -> bool {
    ||| source == IdentifierType::Guild
    ||| destination == IdentifierType::User
    ||| groups_channels(source)
    ||| groups_channels(destination)
    ||| source == IdentifierType::Channel(ChannelType::Forum) && takes_no_threads(destination)
}

/// What the operator is told when the source or the destination is a user.
pub const USER_NOT_SUPPORTED: &'static str =
    "The source ID appears to be a user. Transferring to or from user DM's are not currently supported!";

/// What the operator is told about a refused pair.
pub open spec fn incompatible_message(refused: IncompatibleTypes) -> Seq<char> {
    "The source and destination types are incompatible! ("@ + id_name(refused.source) + " -> "@
        + id_name(refused.destination) + ")"@
}

impl IncompatibleTypes {
    /// The sentence that names the two kinds.
    pub fn message(&self) -> (text: String)
        ensures
            text@ == incompatible_message(*self),
    {
        let mut text = "The source and destination types are incompatible! (".to_owned();
        text.append(get_id_name(self.source).as_str());
        text.append(" -> ");
        text.append(get_id_name(self.destination).as_str());
        text.append(")");
        text
    }
}

/// The name of what the source or the destination is; `None` for a user,
/// whose conversations cannot be moved.
pub fn endpoint_name(id_type: IdentifierType) -> (name: Option<String>)
    ensures
        name is None <==> id_type == IdentifierType::User,
        name matches Some(text) ==> text@ == id_name(id_type),
{
    match id_type {
        IdentifierType::User => None,
        other => Some(get_id_name(other)),
    }
}

/// Accepts the pair unless the rules refuse it.
pub fn validate_source_destination_pairing(
    source_type: IdentifierType,
    destination_type: IdentifierType,
) -> (checked: Result<(), IncompatibleTypes>)
    ensures
        checked is Err <==> incompatible(source_type, destination_type),
        checked matches Err(refused) ==> refused == (IncompatibleTypes {
            source: source_type,
            destination: destination_type,
        }),
{
    let refused = match (source_type, destination_type) {
        (IdentifierType::Guild, _) => true,
        (_, IdentifierType::User) => true,
        (IdentifierType::Channel(ChannelType::Category), _) => true,
        (_, IdentifierType::Channel(ChannelType::Category)) => true,
        (IdentifierType::Channel(ChannelType::Directory), _) => true,
        (_, IdentifierType::Channel(ChannelType::Directory)) => true,
        (
            IdentifierType::Channel(ChannelType::Forum),
            IdentifierType::Channel(ChannelType::GroupDm),
        ) => true,
        (
            IdentifierType::Channel(ChannelType::Forum),
            IdentifierType::Channel(ChannelType::NewsThread),
        ) => true,
        (
            IdentifierType::Channel(ChannelType::Forum),
            IdentifierType::Channel(ChannelType::PublicThread),
        ) => true,
        (
            IdentifierType::Channel(ChannelType::Forum),
            IdentifierType::Channel(ChannelType::PrivateThread),
        ) => true,
        _ => false,
    };
    if refused {
        Err(IncompatibleTypes { source: source_type, destination: destination_type })
    } else {
        Ok(())
    }
}

} // verus!

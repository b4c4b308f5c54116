//! Kinds of channels and of identifiers.

use vstd::prelude::*;

verus! {

/// The kind of a channel, as the platform numbers it.
#[derive(Clone, Copy, Debug, PartialEq, Eq, Structural)]
pub enum ChannelType {
    Text,
    Private,
    Voice,
    GroupDm,
    Category,
    News,
    NewsThread,
    PublicThread,
    PrivateThread,
    Stage,
    Directory,
    Forum,
    /// A kind without a variant of its own, kept by its number. A kind is
    /// named by its number, so `Unknown` is meant for numbers that none of
    /// the other variants has; `from_number` builds no other.
    Unknown(u8),
}

/// A channel as the platform describes it, as far as its kind goes.
#[derive(Clone, Copy, Debug, PartialEq, Eq, Structural)]
pub enum Channel {
    /// A channel of a guild.
    Guild(ChannelType),
    /// A thread in a channel of a guild.
    GuildThread(ChannelType),
    /// A conversation between users.
    Private(ChannelType),
    /// A channel of any other sort.
    Other,
}

/// What an identifier given on the command line refers to.
#[derive(Clone, Copy, Debug, PartialEq, Eq, Structural)]
pub enum IdentifierType {
    User,
    Guild,
    Channel(ChannelType),
}

impl ChannelType {
    /// The number the platform gives this kind.
    pub open spec fn number_spec(self) -> u8 {
        match self {
            ChannelType::Text => 0,
            ChannelType::Private => 1,
            ChannelType::Voice => 2,
            ChannelType::GroupDm => 3,
            ChannelType::Category => 4,
            ChannelType::News => 5,
            ChannelType::NewsThread => 10,
            ChannelType::PublicThread => 11,
            ChannelType::PrivateThread => 12,
            ChannelType::Stage => 13,
            ChannelType::Directory => 14,
            ChannelType::Forum => 15,
            ChannelType::Unknown(n) => n,
        }
    }

    #[verifier::when_used_as_spec(number_spec)]
    pub fn number(self) -> (n: u8)
        ensures
            n == self.number_spec(),
    {
        match self {
            ChannelType::Text => 0,
            ChannelType::Private => 1,
            ChannelType::Voice => 2,
            ChannelType::GroupDm => 3,
            ChannelType::Category => 4,
            ChannelType::News => 5,
            ChannelType::NewsThread => 10,
            ChannelType::PublicThread => 11,
            ChannelType::PrivateThread => 12,
            ChannelType::Stage => 13,
            ChannelType::Directory => 14,
            ChannelType::Forum => 15,
            ChannelType::Unknown(n) => n,
        }
    }
}

/// The kind numbered `n` has a name of its own.
pub open spec fn has_name(n: u8) -> bool {
    n <= 5 || 10 <= n <= 15
}

/// The name the platform's client library prints for the kind numbered `n`.
pub open spec fn kind_name(n: u8) -> Seq<char> {
    if n == 0 {
        "text"@
    } else if n == 1 {
        "private"@
    } else if n == 2 {
        "voice"@
    } else if n == 3 {
        "group_dm"@
    } else if n == 4 {
        "category"@
    } else if n == 5 {
        "news"@
    } else if n == 10 {
        "news_thread"@
    } else if n == 11 {
        "public_thread"@
    } else if n == 12 {
        "private_thread"@
    } else if n == 13 {
        "stage"@
    } else if n == 14 {
        "directory"@
    } else if n == 15 {
        "forum"@
    } else {
        "unknown"@
    }
}

/// Calls `serenity::model::channel::ChannelType::name` on the kind that
/// serenity's `From<u8>` makes of `n`. Trusted: the result is the entry of
/// `kind_name` for `n`, which is the table in serenity's source, with
/// `"unknown"` for every number that `From<u8>` maps to `Unknown`.
#[verifier::external_body]
fn serenity_kind_name(n: u8) -> (name: String)
    ensures
        name@ == kind_name(n),
{
    serenity::model::channel::ChannelType::from(n).name().to_owned()
}

impl ChannelType {
    /// The kind that the platform numbers `n`.
    pub fn from_number(n: u8) -> (kind: Self)
        ensures
            kind.number() == n,
            kind is Unknown <==> !has_name(n),
    {
        match n {
            0 => ChannelType::Text,
            1 => ChannelType::Private,
            2 => ChannelType::Voice,
            3 => ChannelType::GroupDm,
            4 => ChannelType::Category,
            5 => ChannelType::News,
            10 => ChannelType::NewsThread,
            11 => ChannelType::PublicThread,
            12 => ChannelType::PrivateThread,
            13 => ChannelType::Stage,
            14 => ChannelType::Directory,
            15 => ChannelType::Forum,
            _ => ChannelType::Unknown(n),
        }
    }

    /// The kind's name, in lower case with underscores.
    pub fn name(self) -> (name: String)
        ensures
            name@ == kind_name(self.number()),
    {
        serenity_kind_name(self.number())
    }

    /// Whether the kind's number is one that has a name.
    pub fn is_named(self) -> (named: bool)
        ensures
            named == has_name(self.number()),
    {
        let n = self.number();
        n <= 5 || (10 <= n && n <= 15)
    }
}

impl Channel {
    /// The kind that the description carries, if it is of a known sort.
    pub open spec fn kind(self) -> Option<ChannelType> {
        match self {
            Channel::Guild(kind) => Some(kind),
            Channel::GuildThread(kind) => Some(kind),
            Channel::Private(kind) => Some(kind),
            Channel::Other => None,
        }
    }

    /// The channel is of a known sort and its kind has a name.
    pub open spec fn has_inner_type_spec(self) -> bool {
        self.kind() matches Some(kind) && has_name(kind.number())
    }

    /// Whether `get_channel_inner_type` can be asked for this channel's kind.
    #[verifier::when_used_as_spec(has_inner_type_spec)]
    pub fn has_inner_type(self) -> (known: bool)
        ensures
            known == self.has_inner_type_spec(),
    {
        match self {
            Channel::Guild(kind) => kind.is_named(),
            Channel::GuildThread(kind) => kind.is_named(),
            Channel::Private(kind) => kind.is_named(),
            Channel::Other => false,
        }
    }
}

/// The kind of a channel of a known sort.
pub fn get_channel_inner_type(channel: Channel) -> (kind: ChannelType)
    requires
        channel.has_inner_type(),
    ensures
        channel.kind() == Some(kind),
{
    match channel {
        Channel::Guild(kind) => kind,
        Channel::GuildThread(kind) => kind,
        Channel::Private(kind) => kind,
        Channel::Other => vstd::pervasive::unreached(),
    }
}

} // verus!

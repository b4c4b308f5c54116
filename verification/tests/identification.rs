use channel_migrator::channel::{get_channel_inner_type, Channel, ChannelType, IdentifierType};
use channel_migrator::identification::{
    get_id_name, get_id_type, is_unknown_entity, Identification, IdentifyError, Probe,
    ProbeFailure, ProbeReply,
};
use channel_migrator::pairing::{
    endpoint_name, validate_source_destination_pairing, IncompatibleTypes, USER_NOT_SUPPORTED,
};

const KINDS: [(ChannelType, u8, &str); 12] = [
    (ChannelType::Text, 0, "text"),
    (ChannelType::Private, 1, "private"),
    (ChannelType::Voice, 2, "voice"),
    (ChannelType::GroupDm, 3, "group_dm"),
    (ChannelType::Category, 4, "category"),
    (ChannelType::News, 5, "news"),
    (ChannelType::NewsThread, 10, "news_thread"),
    (ChannelType::PublicThread, 11, "public_thread"),
    (ChannelType::PrivateThread, 12, "private_thread"),
    (ChannelType::Stage, 13, "stage"),
    (ChannelType::Directory, 14, "directory"),
    (ChannelType::Forum, 15, "forum"),
];

#[test]
fn kinds_have_their_numbers_and_names() {
    for (kind, number, name) in KINDS {
        assert_eq!(kind.number(), number);
        assert_eq!(ChannelType::from_number(number), kind);
        assert_eq!(kind.name(), name);
        assert!(kind.is_named());
    }
}

#[test]
fn other_numbers_are_unknown() {
    for number in [6u8, 7, 8, 9, 16, 17, 200, 255] {
        let kind = ChannelType::from_number(number);
        assert_eq!(kind, ChannelType::Unknown(number));
        assert_eq!(kind.number(), number);
        assert_eq!(kind.name(), "unknown");
        assert!(!kind.is_named());
    }
}

#[test]
fn id_names() {
    assert_eq!(get_id_name(IdentifierType::User), "user");
    assert_eq!(get_id_name(IdentifierType::Guild), "guild");
    assert_eq!(get_id_name(IdentifierType::Channel(ChannelType::Text)), "text channel");
    assert_eq!(
        get_id_name(IdentifierType::Channel(ChannelType::PublicThread)),
        "public_thread channel"
    );
    assert_eq!(get_id_name(IdentifierType::Channel(ChannelType::Unknown(99))), "unknown channel");
}

#[test]
fn inner_type_of_each_sort_of_channel() {
    assert_eq!(get_channel_inner_type(Channel::Guild(ChannelType::Forum)), ChannelType::Forum);
    assert_eq!(
        get_channel_inner_type(Channel::GuildThread(ChannelType::NewsThread)),
        ChannelType::NewsThread
    );
    assert_eq!(get_channel_inner_type(Channel::Private(ChannelType::Private)), ChannelType::Private);
    assert!(Channel::Guild(ChannelType::Voice).has_inner_type());
    assert!(!Channel::Guild(ChannelType::Unknown(77)).has_inner_type());
    assert!(!Channel::Other.has_inner_type());
}

#[test]
fn unknown_entity_codes() {
    assert!(is_unknown_entity(ProbeFailure { code: Some(10000) }));
    assert!(is_unknown_entity(ProbeFailure { code: Some(10013) }));
    assert!(is_unknown_entity(ProbeFailure { code: Some(19999) }));
    assert!(!is_unknown_entity(ProbeFailure { code: Some(9999) }));
    assert!(!is_unknown_entity(ProbeFailure { code: Some(20000) }));
    assert!(!is_unknown_entity(ProbeFailure { code: Some(0) }));
    assert!(!is_unknown_entity(ProbeFailure { code: None }));
}

#[test]
fn a_user_is_identified_by_the_first_question() {
    assert_eq!(Probe::first(), Probe::User);
    assert_eq!(
        get_id_type(5, Probe::User, ProbeReply::Found),
        Identification::Known(IdentifierType::User)
    );
}

#[test]
fn a_guild_is_identified_by_the_second_question() {
    let unknown = ProbeReply::Failed(ProbeFailure { code: Some(10013) });
    assert_eq!(get_id_type(5, Probe::User, unknown), Identification::Ask(Probe::Guild));
    assert_eq!(
        get_id_type(5, Probe::Guild, ProbeReply::Found),
        Identification::Known(IdentifierType::Guild)
    );
}

#[test]
fn a_channel_is_identified_by_the_third_question() {
    let unknown = ProbeReply::Failed(ProbeFailure { code: Some(10004) });
    assert_eq!(get_id_type(5, Probe::Guild, unknown), Identification::Ask(Probe::Channel));
    assert_eq!(
        get_id_type(5, Probe::Channel, ProbeReply::FoundChannel(Channel::Guild(ChannelType::Stage))),
        Identification::Known(IdentifierType::Channel(ChannelType::Stage))
    );
}

#[test]
fn a_real_failure_ends_the_attempt() {
    for failure in [ProbeFailure { code: None }, ProbeFailure { code: Some(50001) }] {
        assert_eq!(
            get_id_type(5, Probe::User, ProbeReply::Failed(failure)),
            Identification::Unknown(IdentifyError::Failed { probe: Probe::User, failure })
        );
        assert_eq!(
            get_id_type(5, Probe::Guild, ProbeReply::Failed(failure)),
            Identification::Unknown(IdentifyError::Failed { probe: Probe::Guild, failure })
        );
    }
}

#[test]
fn without_a_channel_the_identifier_is_unknown() {
    for reply in [
        ProbeReply::Failed(ProbeFailure { code: Some(10003) }),
        ProbeReply::Failed(ProbeFailure { code: None }),
        ProbeReply::Found,
    ] {
        assert_eq!(
            get_id_type(42, Probe::Channel, reply),
            Identification::Unknown(IdentifyError::UnknownIdType { id: 42 })
        );
    }
}

fn channel(kind: ChannelType) -> IdentifierType {
    IdentifierType::Channel(kind)
}

#[test]
fn refused_pairs() {
    let any = [
        IdentifierType::User,
        IdentifierType::Guild,
        channel(ChannelType::Text),
        channel(ChannelType::Forum),
    ];
    for other in any {
        assert!(validate_source_destination_pairing(IdentifierType::Guild, other).is_err());
        assert!(validate_source_destination_pairing(other, IdentifierType::User).is_err());
        for container in [ChannelType::Category, ChannelType::Directory] {
            assert!(validate_source_destination_pairing(channel(container), other).is_err());
            assert!(validate_source_destination_pairing(other, channel(container)).is_err());
        }
    }
    for target in [
        ChannelType::GroupDm,
        ChannelType::NewsThread,
        ChannelType::PublicThread,
        ChannelType::PrivateThread,
    ] {
        assert_eq!(
            validate_source_destination_pairing(channel(ChannelType::Forum), channel(target)),
            Err(IncompatibleTypes {
                source: channel(ChannelType::Forum),
                destination: channel(target)
            })
        );
    }
}

#[test]
fn accepted_pairs() {
    let accepted = [
        (channel(ChannelType::Text), channel(ChannelType::Text)),
        (channel(ChannelType::Text), channel(ChannelType::Forum)),
        (channel(ChannelType::Forum), channel(ChannelType::Forum)),
        (channel(ChannelType::Forum), channel(ChannelType::Text)),
        (channel(ChannelType::Text), channel(ChannelType::PublicThread)),
        (channel(ChannelType::Text), IdentifierType::Guild),
        (IdentifierType::User, channel(ChannelType::Text)),
        (channel(ChannelType::Unknown(4)), channel(ChannelType::Text)),
    ];
    for (source, destination) in accepted {
        assert_eq!(validate_source_destination_pairing(source, destination), Ok(()));
    }
}

#[test]
fn the_message_names_both_kinds() {
    let refused =
        validate_source_destination_pairing(IdentifierType::Guild, channel(ChannelType::Forum))
            .unwrap_err();
    assert_eq!(
        refused.message(),
        "The source and destination types are incompatible! (guild -> forum channel)"
    );
}

#[test]
fn a_user_is_no_endpoint() {
    assert_eq!(endpoint_name(IdentifierType::User), None);
    assert_eq!(endpoint_name(IdentifierType::Guild), Some(String::from("guild")));
    assert_eq!(
        endpoint_name(channel(ChannelType::News)),
        Some(String::from("news channel"))
    );
    assert!(USER_NOT_SUPPORTED.starts_with("The source ID appears to be a user."));
}

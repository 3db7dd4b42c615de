use server::operation::{MessageToUser, ParseError, UserOperation};

const ALL_OPERATIONS: [UserOperation; 16] = [
    UserOperation::Login,
    UserOperation::Register,
    UserOperation::Logout,
    UserOperation::CreateCommunity,
    UserOperation::ListCommunities,
    UserOperation::CreatePost,
    UserOperation::GetPost,
    UserOperation::GetCommunity,
    UserOperation::CreateComment,
    UserOperation::Join,
    UserOperation::Edit,
    UserOperation::Reply,
    UserOperation::Vote,
    UserOperation::Delete,
    UserOperation::NextPage,
    UserOperation::Sticky,
];

#[test]
fn operation_names_are_variant_names() {
    assert_eq!(UserOperation::Login.to_string(), "Login");
    assert_eq!(UserOperation::CreateCommunity.to_string(), "CreateCommunity");
    assert_eq!(UserOperation::ListCommunities.to_string(), "ListCommunities");
    assert_eq!(UserOperation::NextPage.to_string(), "NextPage");
    assert_eq!(UserOperation::Sticky.to_string(), "Sticky");
}

#[test]
fn every_operation_name_reads_back() {
    for op in ALL_OPERATIONS {
        assert_eq!(UserOperation::from_str(&op.to_string()), Ok(op));
    }
}

#[test]
fn operation_names_are_case_sensitive_and_exact() {
    assert_eq!(UserOperation::from_str("login"), Err(ParseError::VariantNotFound));
    assert_eq!(UserOperation::from_str("Login "), Err(ParseError::VariantNotFound));
    assert_eq!(UserOperation::from_str(""), Err(ParseError::VariantNotFound));
    assert_eq!(UserOperation::from_str("Unknown"), Err(ParseError::VariantNotFound));
    assert_eq!(UserOperation::from_str("GetPost"), Ok(UserOperation::GetPost));
}

#[test]
fn message_kinds_read_back() {
    let all = [
        MessageToUser::Comments,
        MessageToUser::Users,
        MessageToUser::Ping,
        MessageToUser::Pong,
        MessageToUser::Error,
    ];
    for m in all {
        assert_eq!(MessageToUser::from_str(&m.to_string()), Ok(m));
    }
    assert_eq!(MessageToUser::Pong.to_string(), "Pong");
    assert_eq!(MessageToUser::from_str("Pang"), Err(ParseError::VariantNotFound));
}

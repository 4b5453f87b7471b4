use aws_setter::json::get_text;
use aws_setter::sts::{AssumedRoleUser, Credentials, StsResponse};

const ANSWER: &str = r#"{
    "Credentials": {
        "AccessKeyId": "A2",
        "SecretAccessKey": "S2",
        "SessionToken": "T2",
        "Expiration": "2031-05-06T07:08:09Z"
    },
    "AssumedRoleUser": {
        "AssumedRoleId": "AROA123:ops@example.com",
        "Arn": "arn:aws:sts::123456789012:assumed-role/MyRole/ops@example.com"
    },
    "PackedPolicySize": 6
}"#;

fn expected() -> StsResponse {
    StsResponse {
        credentials: Credentials {
            access_key_id: "A2".to_string(),
            secret_access_key: "S2".to_string(),
            session_token: "T2".to_string(),
            expiration: "2031-05-06T07:08:09Z".to_string(),
        },
        assumed_role_user: AssumedRoleUser {
            assumed_role_id: "AROA123:ops@example.com".to_string(),
            arn: "arn:aws:sts::123456789012:assumed-role/MyRole/ops@example.com".to_string(),
        },
    }
}

#[test]
fn complete_answer_is_read() {
    assert_eq!(StsResponse::from_text(ANSWER), Some(expected()));
}

#[test]
fn answer_is_read_from_a_parsed_document() {
    let document: serde_json::Value = serde_json::from_str(ANSWER).unwrap();
    assert_eq!(StsResponse::from_document(&document), Some(expected()));
    assert_eq!(get_text(&document["Credentials"], "AccessKeyId"), Some("A2".to_string()));
    assert_eq!(get_text(&document["Credentials"], "Missing"), None);
    assert_eq!(get_text(&document, "PackedPolicySize"), None);
    assert_eq!(get_text(&document, "Credentials"), None);
    assert_eq!(Credentials::from_object(&document["Credentials"]), Some(expected().credentials));
    assert_eq!(AssumedRoleUser::from_object(&document["AssumedRoleUser"]), Some(expected().assumed_role_user));
    assert_eq!(Credentials::from_object(&document["AssumedRoleUser"]), None);
}

#[test]
fn text_that_is_not_json_is_no_answer() {
    assert_eq!(StsResponse::from_text(""), None);
    assert_eq!(StsResponse::from_text("An error occurred"), None);
    assert_eq!(StsResponse::from_text("{\"Credentials\": {"), None);
}

#[test]
fn answer_with_a_missing_field_is_no_answer() {
    for field in ["AccessKeyId", "SecretAccessKey", "SessionToken", "Expiration", "AssumedRoleId", "Arn"] {
        let renamed = ANSWER.replace(&format!("\"{}\"", field), "\"Other\"");
        assert_eq!(StsResponse::from_text(&renamed), None);
    }
    assert_eq!(StsResponse::from_text(&ANSWER.replace("\"Credentials\"", "\"credentials\"")), None);
    assert_eq!(StsResponse::from_text(&ANSWER.replace("\"AssumedRoleUser\"", "\"User\"")), None);
}

#[test]
fn field_that_is_no_string_is_no_answer() {
    assert_eq!(StsResponse::from_text(&ANSWER.replace("\"T2\"", "17")), None);
    assert_eq!(StsResponse::from_text(&ANSWER.replace("\"T2\"", "null")), None);
    assert_eq!(StsResponse::from_text("[1, 2]"), None);
    assert_eq!(StsResponse::from_text("{\"Credentials\": \"A2\", \"AssumedRoleUser\": \"me\"}"), None);
}

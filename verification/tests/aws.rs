use aws_setter::aws::{
    aws_root, check_logged_in, config_from_items, config_path, credentials_path, exchange_command,
    get_credentials, load_config, log_in, login_command, probe_command, Action, AwsClient, AwsConfig, Event,
    Invocation,
};
use aws_setter::config::AwsSetterConfig;
use aws_setter::credentials::{load_credentials, CredentialStore, CredentialsConfigEntry};
use aws_setter::error::AssumeError;
use aws_setter::ini::{IniItem, LoadError};
use aws_setter::table::Table;
use aws_setter::text::show;

const ANSWER: &str = r#"{"Credentials": {"AccessKeyId": "A2", "SecretAccessKey": "S2", "SessionToken": "T2",
"Expiration": "2031-05-06T07:08:09Z"}, "AssumedRoleUser": {"AssumedRoleId": "AROA:me", "Arn": "arn:me"}}"#;

const STORE: &str = "[default]\naws_access_key_id=A1\naws_secret_access_key=S1\naws_session_token=T1\n\
[other]\naws_access_key_id=A9\naws_secret_access_key=S9\naws_session_token=T9\n";

const ROLE: &str = "arn:aws:iam::123456789012:role/MyRole";

fn entry(key: &str, secret: &str, token: &str) -> CredentialsConfigEntry {
    CredentialsConfigEntry {
        aws_access_key_id: key.to_string(),
        aws_secret_access_key: secret.to_string(),
        aws_session_token: token.to_string(),
    }
}

fn client() -> AwsClient {
    AwsClient::new("/home/op", Table::new(), load_credentials(STORE).unwrap())
}

fn command(args: &[&str]) -> Invocation {
    Invocation { program: "aws".to_string(), args: args.iter().map(|arg| arg.to_string()).collect() }
}

fn exchange() -> Action {
    Action::Exchange(command(&[
        "sts",
        "assume-role",
        "--profile",
        "default",
        "--role-arn",
        ROLE,
        "--role-session-name",
        "ops@example.com",
    ]))
}

/// What the outside answers to each kind of action in one run.
struct Script {
    probe: Event,
    login: Event,
    exchange: Event,
    write: Event,
}

fn answered(stdout: &str, stderr: &str) -> Event {
    Event::ExchangeFinished { stdout: stdout.as_bytes().to_vec(), stderr: stderr.as_bytes().to_vec() }
}

fn script(valid: bool, login: bool, exchange: Event) -> Script {
    Script {
        probe: Event::ProbeExited { success: valid },
        login: Event::LoginExited { success: login },
        exchange,
        write: Event::StoreWritten,
    }
}

/// Runs the operation to its end and gives every action in order.
fn drive(client: &mut AwsClient, profile: &str, script: &Script) -> Vec<Action> {
    let mut actions = Vec::new();
    let mut event = Event::Start;
    loop {
        let action = client.assume_role(profile, ROLE, "ops@example.com", event);
        actions.push(action.clone());
        event = match action {
            Action::Probe(_) => script.probe.clone(),
            Action::Login(_) => script.login.clone(),
            Action::Exchange(_) => script.exchange.clone(),
            Action::WriteStore { .. } => script.write.clone(),
            Action::Succeed | Action::Fail(_) => return actions,
        };
        assert!(actions.len() <= 5);
    }
}

#[test]
fn commands_name_the_profile_the_role_and_the_session() {
    assert_eq!(probe_command("dev"), command(&["iam", "list-roles", "--profile", "dev", "--no-cli-pager"]));
    assert_eq!(login_command("dev"), command(&["sso", "login", "--profile", "dev"]));
    assert_eq!(
        exchange_command("dev", "arn:role", "me@example.com"),
        command(&[
            "sts",
            "assume-role",
            "--profile",
            "dev",
            "--role-arn",
            "arn:role",
            "--role-session-name",
            "me@example.com"
        ])
    );
}

#[test]
fn paths_lie_under_the_home_directory() {
    assert_eq!(aws_root("/home/op"), "/home/op/.aws");
    assert_eq!(config_path("/home/op/.aws"), "/home/op/.aws/config");
    assert_eq!(credentials_path("/home/op/.aws"), "/home/op/.aws/credentials");
    let client = client();
    assert_eq!(client.root(), "/home/op/.aws");
    assert_eq!(client.credentials().len(), 2);
    assert_eq!(client.aws_config().len(), 0);
}

#[test]
fn exit_status_decides_probe_and_login() {
    assert_eq!(check_logged_in(true), Ok(()));
    assert_eq!(check_logged_in(false), Err(AssumeError::SessionNotLoggedIn));
    assert_eq!(log_in(true), Ok(()));
    assert_eq!(log_in(false), Err(AssumeError::ReauthenticationFailed));
}

#[test]
fn error_stream_rejects_even_with_a_valid_answer() {
    let outcome = get_credentials(ANSWER.as_bytes().to_vec(), b"ExpiredToken: the token has expired\n".to_vec());
    assert_eq!(outcome, Err(AssumeError::ExchangeRejected("ExpiredToken: the token has expired\n".to_string())));
    let outcome = get_credentials(Vec::new(), b"x".to_vec());
    assert_eq!(outcome, Err(AssumeError::ExchangeRejected("x".to_string())));
}

#[test]
fn error_stream_that_is_not_text_still_rejects() {
    let outcome = get_credentials(ANSWER.as_bytes().to_vec(), vec![b'n', b'o', 0xff]);
    assert_eq!(outcome, Err(AssumeError::ExchangeRejected("no\u{fffd}".to_string())));
}

#[test]
fn bytes_are_shown_as_their_text() {
    assert_eq!(show(&"Zugriff verweigert: \u{e4}\u{20ac}".as_bytes().to_vec()), "Zugriff verweigert: \u{e4}\u{20ac}");
    assert_eq!(show(&vec![]), "");
    assert_eq!(show(&vec![0x61, 0x80, 0x62]), "a\u{fffd}b");
}

#[test]
fn answer_is_read_from_the_output() {
    let response = get_credentials(ANSWER.as_bytes().to_vec(), Vec::new()).unwrap();
    assert_eq!(response.credentials.access_key_id, "A2");
    assert_eq!(response.credentials.secret_access_key, "S2");
    assert_eq!(response.credentials.session_token, "T2");
    assert_eq!(response.credentials.expiration, "2031-05-06T07:08:09Z");
    assert_eq!(response.assumed_role_user.assumed_role_id, "AROA:me");
    assert_eq!(response.assumed_role_user.arn, "arn:me");
}

#[test]
fn output_that_cannot_be_understood_is_malformed() {
    assert_eq!(get_credentials(Vec::new(), Vec::new()), Err(AssumeError::ExchangeResponseMalformed));
    assert_eq!(get_credentials(b"not json".to_vec(), Vec::new()), Err(AssumeError::ExchangeResponseMalformed));
    assert_eq!(get_credentials(b"{}".to_vec(), Vec::new()), Err(AssumeError::ExchangeResponseMalformed));
    let mut bytes = ANSWER.as_bytes().to_vec();
    bytes.push(0xff);
    assert_eq!(get_credentials(bytes, Vec::new()), Err(AssumeError::ExchangeResponseMalformed));
}

#[test]
fn each_event_has_its_action() {
    let mut client = client();
    let step = |client: &mut AwsClient, event: Event| client.assume_role("default", ROLE, "ops@example.com", event);
    assert_eq!(
        step(&mut client, Event::Start),
        Action::Probe(command(&["iam", "list-roles", "--profile", "default", "--no-cli-pager"]))
    );
    assert_eq!(step(&mut client, Event::ProbeExited { success: true }), exchange());
    assert_eq!(
        step(&mut client, Event::ProbeExited { success: false }),
        Action::Login(command(&["sso", "login", "--profile", "default"]))
    );
    assert_eq!(step(&mut client, Event::LoginExited { success: true }), exchange());
    assert_eq!(
        step(&mut client, Event::LoginExited { success: false }),
        Action::Fail(AssumeError::ReauthenticationFailed)
    );
    assert_eq!(step(&mut client, Event::StoreWritten), Action::Succeed);
    assert_eq!(
        step(&mut client, Event::CommandFailed { reason: "No such file or directory".to_string() }),
        Action::Fail(AssumeError::CommandFailed("No such file or directory".to_string()))
    );
    assert_eq!(
        step(&mut client, Event::WriteFailed { reason: "Permission denied".to_string() }),
        Action::Fail(AssumeError::StoreWriteError("Permission denied".to_string()))
    );
    assert_eq!(client.credentials().to_text(), load_credentials(STORE).unwrap().to_text());
}

#[test]
fn existing_profile_gets_the_new_credentials() {
    let mut client = client();
    let actions = drive(&mut client, "default", &script(true, true, answered(ANSWER, "")));
    let contents = "[default]\r\naws_access_key_id=A2\r\naws_secret_access_key=S2\r\naws_session_token=T2\r\n\
[other]\r\naws_access_key_id=A9\r\naws_secret_access_key=S9\r\naws_session_token=T9\r\n";
    assert_eq!(actions.len(), 4);
    assert_eq!(actions[1], exchange());
    assert_eq!(
        actions[2],
        Action::WriteStore { path: "/home/op/.aws/credentials".to_string(), contents: contents.to_string() }
    );
    assert_eq!(actions[3], Action::Succeed);
    assert_eq!(client.credentials().len(), 2);
    assert_eq!(client.credentials().get("default"), Some(&entry("A2", "S2", "T2")));
    assert_eq!(client.credentials().get("other"), Some(&entry("A9", "S9", "T9")));
}

#[test]
fn absent_profile_is_added_to_the_store() {
    let mut client = client();
    let actions = drive(&mut client, "newprofile", &script(true, true, answered(ANSWER, "")));
    assert_eq!(actions.last(), Some(&Action::Succeed));
    assert_eq!(client.credentials().len(), 3);
    assert_eq!(client.credentials().get("newprofile"), Some(&entry("A2", "S2", "T2")));
    assert_eq!(client.credentials().get("default"), Some(&entry("A1", "S1", "T1")));
    assert_eq!(client.credentials().get("other"), Some(&entry("A9", "S9", "T9")));
}

#[test]
fn valid_session_never_logs_in() {
    let mut client = client();
    let actions = drive(&mut client, "default", &script(true, false, answered(ANSWER, "")));
    assert!(actions.iter().all(|action| !matches!(action, Action::Login(_))));
    assert_eq!(actions.last(), Some(&Action::Succeed));
}

#[test]
fn invalid_session_logs_in_once_and_goes_on() {
    let mut client = client();
    let actions = drive(&mut client, "default", &script(false, true, answered(ANSWER, "")));
    assert_eq!(actions.len(), 5);
    assert!(matches!(actions[0], Action::Probe(_)));
    assert!(matches!(actions[1], Action::Login(_)));
    assert_eq!(actions[2], exchange());
    assert!(matches!(actions[3], Action::WriteStore { .. }));
    assert_eq!(actions[4], Action::Succeed);
}

#[test]
fn failed_login_ends_the_operation() {
    let mut client = client();
    let actions = drive(&mut client, "default", &script(false, false, answered(ANSWER, "")));
    assert_eq!(actions.len(), 3);
    assert!(matches!(actions[0], Action::Probe(_)));
    assert!(matches!(actions[1], Action::Login(_)));
    assert_eq!(actions[2], Action::Fail(AssumeError::ReauthenticationFailed));
    assert_eq!(client.credentials().get("default"), Some(&entry("A1", "S1", "T1")));
}

#[test]
fn rejected_exchange_leaves_the_store_unchanged() {
    let mut client = client();
    let rejected = answered(ANSWER, "ExpiredToken: the security token included in the request is expired");
    let actions = drive(&mut client, "default", &script(true, true, rejected));
    assert_eq!(actions.len(), 3);
    assert_eq!(
        actions[2],
        Action::Fail(AssumeError::ExchangeRejected(
            "ExpiredToken: the security token included in the request is expired".to_string()
        ))
    );
    assert!(actions.iter().all(|action| !matches!(action, Action::WriteStore { .. })));
    assert_eq!(client.credentials().to_text(), load_credentials(STORE).unwrap().to_text());
}

#[test]
fn malformed_answer_leaves_the_store_unchanged() {
    let mut client = client();
    let actions = drive(&mut client, "default", &script(true, true, answered("<html>", "")));
    assert_eq!(actions.last(), Some(&Action::Fail(AssumeError::ExchangeResponseMalformed)));
    assert!(actions.iter().all(|action| !matches!(action, Action::WriteStore { .. })));
    assert_eq!(client.credentials().to_text(), load_credentials(STORE).unwrap().to_text());
}

#[test]
fn command_that_cannot_run_ends_the_operation() {
    let mut client = client();
    let mut missing = script(true, true, answered(ANSWER, ""));
    missing.probe = Event::CommandFailed { reason: "No such file or directory".to_string() };
    let actions = drive(&mut client, "default", &missing);
    assert_eq!(actions.len(), 2);
    assert_eq!(actions[1], Action::Fail(AssumeError::CommandFailed("No such file or directory".to_string())));
}

#[test]
fn failed_write_is_reported() {
    let mut client = client();
    let mut full = script(true, true, answered(ANSWER, ""));
    full.write = Event::WriteFailed { reason: "No space left on device".to_string() };
    let actions = drive(&mut client, "default", &full);
    assert_eq!(
        actions.last(),
        Some(&Action::Fail(AssumeError::StoreWriteError("No space left on device".to_string())))
    );
}

#[test]
fn write_credentials_merges_and_orders_the_write() {
    let mut client = AwsClient::new("/root", Table::new(), CredentialStore::new());
    let response = get_credentials(ANSWER.as_bytes().to_vec(), Vec::new()).unwrap();
    let action = client.write_credentials("dev", &response);
    assert_eq!(
        action,
        Action::WriteStore {
            path: "/root/.aws/credentials".to_string(),
            contents: "[dev]\r\naws_access_key_id=A2\r\naws_secret_access_key=S2\r\naws_session_token=T2\r\n"
                .to_string(),
        }
    );
}

#[test]
fn settings_file_is_read_by_profile() {
    let text = "[profile dev]\nsso_start_url=https://example.awsapps.com/start\nsso_region=eu-west-1\n\
sso_account_id=123456789012\nsso_role_name=Admin\nregion=eu-central-1\noutput=json\n";
    let table = load_config(text).unwrap();
    assert_eq!(table.len(), 1);
    assert_eq!(
        table.get("profile dev"),
        Some(&AwsConfig {
            sso_start_url: "https://example.awsapps.com/start".to_string(),
            sso_region: "eu-west-1".to_string(),
            sso_account_id: "123456789012".to_string(),
            sso_role_name: "Admin".to_string(),
            region: "eu-central-1".to_string(),
        })
    );
    assert_eq!(table.get("dev"), None);
    assert_eq!(load_config("[dev]\nregion=eu-central-1\n").err(), Some(LoadError::MissingField));
    assert_eq!(load_config("region=eu-central-1\n").err(), Some(LoadError::OrphanValue));
    assert_eq!(load_config("[dev\n").err(), Some(LoadError::Syntax));
    assert_eq!(load_config("").unwrap().len(), 0);
    let items = vec![IniItem::Section { name: "dev".to_string() }];
    assert_eq!(config_from_items(&items).err(), Some(LoadError::MissingField));
}

#[test]
fn unknown_profile_is_known_before_anything_runs() {
    let config = AwsSetterConfig::new(
        "ops@example.com".to_string(),
        vec![("default".to_string(), ROLE.to_string())],
    );
    assert_eq!(config.resolve("default"), Ok(&ROLE.to_string()));
    assert_eq!(config.resolve("other"), Err(AssumeError::UnknownProfile("other".to_string())));
}

#[test]
fn every_error_has_its_message_and_exit_code() {
    let errors = vec![
        (AssumeError::UnknownProfile("dev".to_string()), "Role not found for profile: dev", 3),
        (AssumeError::CommandFailed("not found".to_string()), "Could not run the command: not found", 4),
        (AssumeError::SessionNotLoggedIn, "You are not logged in", 5),
        (AssumeError::ReauthenticationFailed, "Could not log in", 6),
        (AssumeError::ExchangeRejected("denied".to_string()), "Role could not be assumed: denied", 7),
        (AssumeError::ExchangeResponseMalformed, "Could not handle output", 8),
        (AssumeError::StoreWriteError("full".to_string()), "Could not write the credentials: full", 9),
    ];
    for (error, message, code) in errors {
        assert_eq!(error.message(), message);
        assert_eq!(error.exit_code(), code);
    }
}

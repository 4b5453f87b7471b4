//! The client: what it runs, in which order, and what it makes of the
//! outcome.

use crate::credentials::{merged, store_text, CredentialStore, EntryView};
use crate::error::{AssumeError, ErrorView};
use crate::ini::{
    field_of, group, item_views, lemma_records_fail, parse_items, records_of, records_of_items, records_of_text,
    section_views, IniItem, LoadError, Section,
};
use crate::sts::{response_of_text, StsResponse, StsResponseView};
use crate::table::{distinct_names, lemma_bind_lift, lift, Table};
use crate::text::{show, shown_text, utf8_text};
use vstd::prelude::*;
use vstd::string::StringExecFns;
use vstd::utf8::{decode_utf8, valid_utf8};

verus! {

/// A command line: the program and its arguments.
#[derive(Debug, Clone, PartialEq, Eq)]
pub struct Invocation {
    pub program: String,
    pub args: Vec<String>,
}

/// A command line, with the texts of its strings.
pub struct InvocationView {
    pub program: Seq<char>,
    pub args: Seq<Seq<char>>,
}

impl View for Invocation {
    type V = InvocationView;

    open spec fn view(&self) -> InvocationView {
        InvocationView { program: self.program@, args: self.args@.map_values(|arg: String| arg@) }
    }
}

/// The command that lists the roles of a profile: it succeeds exactly when
/// the profile's session is valid.
pub open spec fn probe_invocation(profile: Seq<char>) -> InvocationView {
    InvocationView {
        program: "aws"@,
        args: seq!["iam"@, "list-roles"@, "--profile"@, profile, "--no-cli-pager"@],
    }
}

/// The command that logs a profile in.
pub open spec fn login_invocation(profile: Seq<char>) -> InvocationView {
    InvocationView { program: "aws"@, args: seq!["sso"@, "login"@, "--profile"@, profile] }
}

/// The command that exchanges a role for temporary credentials.
pub open spec fn exchange_invocation(profile: Seq<char>, role_arn: Seq<char>, name: Seq<char>) -> InvocationView {
    InvocationView {
        program: "aws"@,
        args: seq![
            "sts"@,
            "assume-role"@,
            "--profile"@,
            profile,
            "--role-arn"@,
            role_arn,
            "--role-session-name"@,
            name,
        ],
    }
}

/// The command that lists the roles of a profile.
pub fn probe_command(profile: &str) -> (command: Invocation)
    ensures
        command@ == probe_invocation(profile@),
{
    let mut args: Vec<String> = Vec::new();
    args.push("iam".to_owned());
    args.push("list-roles".to_owned());
    args.push("--profile".to_owned());
    args.push(profile.to_owned());
    args.push("--no-cli-pager".to_owned());
    let command = Invocation { program: "aws".to_owned(), args };
    assert(command@.args =~= probe_invocation(profile@).args);
    command
}

/// The command that logs a profile in.
pub fn login_command(profile: &str) -> (command: Invocation)
    ensures
        command@ == login_invocation(profile@),
{
    let mut args: Vec<String> = Vec::new();
    args.push("sso".to_owned());
    args.push("login".to_owned());
    args.push("--profile".to_owned());
    args.push(profile.to_owned());
    let command = Invocation { program: "aws".to_owned(), args };
    assert(command@.args =~= login_invocation(profile@).args);
    command
}

/// The command that exchanges a role for temporary credentials.
pub fn exchange_command(profile: &str, role_arn: &str, name: &str) -> (command: Invocation)
    ensures
        command@ == exchange_invocation(profile@, role_arn@, name@),
{
    let mut args: Vec<String> = Vec::new();
    args.push("sts".to_owned());
    args.push("assume-role".to_owned());
    args.push("--profile".to_owned());
    args.push(profile.to_owned());
    args.push("--role-arn".to_owned());
    args.push(role_arn.to_owned());
    args.push("--role-session-name".to_owned());
    args.push(name.to_owned());
    let command = Invocation { program: "aws".to_owned(), args };
    assert(command@.args =~= exchange_invocation(profile@, role_arn@, name@).args);
    command
}

/// What the exchange's two streams amount to. Anything on the error stream
/// is a rejection, whatever else the command did, and carries the text of
/// that stream as it is.
/// With a silent error stream, the output must be UTF-8 and hold a complete
/// answer.
pub open spec fn exchange_result(stdout: Seq<u8>, stderr: Seq<u8>) -> Result<StsResponseView, ErrorView> {
    if stderr.len() > 0 {
        Err(ErrorView::ExchangeRejected(shown_text(stderr)))
    } else if !valid_utf8(stdout) {
        Err(ErrorView::ExchangeResponseMalformed)
    } else {
        match response_of_text(decode_utf8(stdout)) {
            Some(response) => Ok(response),
            None => Err(ErrorView::ExchangeResponseMalformed),
        }
    }
}

/// Whether the probe found a valid session: it did when it exited with
/// success.
pub fn check_logged_in(success: bool) -> (outcome: Result<(), AssumeError>)
    ensures
        outcome is Ok <==> success,
        outcome matches Err(error) ==> error@ == ErrorView::SessionNotLoggedIn,
{
    if success {
        Ok(())
    } else {
        Err(AssumeError::SessionNotLoggedIn)
    }
}

/// Whether the login succeeded: it did when it exited with success.
pub fn log_in(success: bool) -> (outcome: Result<(), AssumeError>)
    ensures
        outcome is Ok <==> success,
        outcome matches Err(error) ==> error@ == ErrorView::ReauthenticationFailed,
{
    if success {
        Ok(())
    } else {
        Err(AssumeError::ReauthenticationFailed)
    }
}

/// The answer of the exchange, from what it wrote to its two streams.
pub fn get_credentials(stdout: Vec<u8>, stderr: Vec<u8>) -> (outcome: Result<StsResponse, AssumeError>)
    ensures
        match outcome {
            Ok(response) => exchange_result(stdout@, stderr@) == Ok::<StsResponseView, ErrorView>(response@),
            Err(error) => exchange_result(stdout@, stderr@) == Err::<StsResponseView, ErrorView>(error@),
        },
{
    if stderr.len() > 0 {
        return Err(AssumeError::ExchangeRejected(show(&stderr)));
    }
    let text = match utf8_text(stdout) {
        Some(text) => text,
        None => { return Err(AssumeError::ExchangeResponseMalformed); },
    };
    match StsResponse::from_text(text.as_str()) {
        Some(response) => Ok(response),
        None => Err(AssumeError::ExchangeResponseMalformed),
    }
}

/// The single sign-on settings of one profile.
#[derive(Debug, Clone, PartialEq, Eq)]
pub struct AwsConfig {
    pub sso_start_url: String,
    pub sso_region: String,
    pub sso_account_id: String,
    pub sso_role_name: String,
    pub region: String,
}

/// The settings of one profile, with the texts of their fields.
pub struct AwsConfigView {
    pub sso_start_url: Seq<char>,
    pub sso_region: Seq<char>,
    pub sso_account_id: Seq<char>,
    pub sso_role_name: Seq<char>,
    pub region: Seq<char>,
}

impl View for AwsConfig {
    type V = AwsConfigView;

    open spec fn view(&self) -> AwsConfigView {
        AwsConfigView {
            sso_start_url: self.sso_start_url@,
            sso_region: self.sso_region@,
            sso_account_id: self.sso_account_id@,
            sso_role_name: self.sso_role_name@,
            region: self.region@,
        }
    }
}

/// The settings that a section's assignments give: each of the five fields
/// exactly once, whatever else the section assigns.
pub open spec fn aws_config_of(pairs: Seq<(Seq<char>, Seq<char>)>) -> Result<AwsConfigView, LoadError> {
    match field_of(pairs, "sso_start_url"@) {
        Err(error) => Err(error),
        Ok(sso_start_url) => match field_of(pairs, "sso_region"@) {
            Err(error) => Err(error),
            Ok(sso_region) => match field_of(pairs, "sso_account_id"@) {
                Err(error) => Err(error),
                Ok(sso_account_id) => match field_of(pairs, "sso_role_name"@) {
                    Err(error) => Err(error),
                    Ok(sso_role_name) => match field_of(pairs, "region"@) {
                        Err(error) => Err(error),
                        Ok(region) => Ok(
                            AwsConfigView { sso_start_url, sso_region, sso_account_id, sso_role_name, region },
                        ),
                    },
                },
            },
        }
    }
}

/// The settings of each profile that the text of a settings file gives.
pub open spec fn aws_configs_of_text(text: Seq<char>) -> Result<Seq<(Seq<char>, AwsConfigView)>, LoadError> {
    records_of_text(text, |pairs: Seq<(Seq<char>, Seq<char>)>| aws_config_of(pairs))
}

/// The settings of each profile that the lines of a settings file give.
pub open spec fn aws_configs_of_items(items: Seq<crate::ini::ItemView>) -> Result<
    Seq<(Seq<char>, AwsConfigView)>,
    LoadError,
> {
    records_of_items(items, |pairs: Seq<(Seq<char>, Seq<char>)>| aws_config_of(pairs))
}

/// The settings of a table of profiles, with the texts of their fields.
pub open spec fn aws_config_views(table: Table<AwsConfig>) -> Seq<(Seq<char>, AwsConfigView)> {
    lift(table.pairs(), |config: AwsConfig| config@)
}

impl AwsConfig {
    /// The settings that a section holds.
    pub fn from_section(section: &Section) -> (config: Result<Self, LoadError>)
        ensures
            match config {
                Ok(found) => aws_config_of(section@.pairs) == Ok::<AwsConfigView, LoadError>(found@),
                Err(error) => aws_config_of(section@.pairs) == Err::<AwsConfigView, LoadError>(error),
            },
    {
        let sso_start_url = match section.field("sso_start_url") {
            Ok(text) => text,
            Err(error) => { return Err(error); },
        };
        let sso_region = match section.field("sso_region") {
            Ok(text) => text,
            Err(error) => { return Err(error); },
        };
        let sso_account_id = match section.field("sso_account_id") {
            Ok(text) => text,
            Err(error) => { return Err(error); },
        };
        let sso_role_name = match section.field("sso_role_name") {
            Ok(text) => text,
            Err(error) => { return Err(error); },
        };
        let region = match section.field("region") {
            Ok(text) => text,
            Err(error) => { return Err(error); },
        };
        Ok(AwsConfig { sso_start_url, sso_region, sso_account_id, sso_role_name, region })
    }
}

/// The settings of each profile that the lines of a settings file hold.
pub fn config_from_items(items: &Vec<IniItem>) -> (configs: Result<Table<AwsConfig>, LoadError>)
    ensures
        match configs {
            Ok(table) => table.wf() && aws_configs_of_items(item_views(items@)) == Ok::<
                Seq<(Seq<char>, AwsConfigView)>,
                LoadError,
            >(aws_config_views(table)),
            Err(error) => aws_configs_of_items(item_views(items@)) == Err::<
                Seq<(Seq<char>, AwsConfigView)>,
                LoadError,
            >(error),
        },
{
    let sections = match group(items) {
        Some(sections) => sections,
        None => { return Err(LoadError::OrphanValue); },
    };
    let ghost views = section_views(sections@);
    let ghost read = |pairs: Seq<(Seq<char>, Seq<char>)>| aws_config_of(pairs);
    let mut table: Table<AwsConfig> = Table::new();
    let mut i: usize = 0;
    assert(aws_config_views(table) =~= Seq::<(Seq<char>, AwsConfigView)>::empty());
    while i < sections.len()
        invariant
            i <= sections.len(),
            views == section_views(sections@),
            read == |pairs: Seq<(Seq<char>, Seq<char>)>| aws_config_of(pairs),
            crate::ini::sections_of(item_views(items@)) == Some(views),
            table.wf(),
            records_of(views.take(i as int), read) == Ok::<Seq<(Seq<char>, AwsConfigView)>, LoadError>(
                aws_config_views(table),
            ),
        decreases sections.len() - i,
    {
        proof {
            assert(views.take(i + 1).drop_last() =~= views.take(i as int));
            assert(views.take(i + 1).last() == sections@[i as int]@);
        }
        match AwsConfig::from_section(&sections[i]) {
            Err(error) => {
                proof {
                    lemma_records_fail(views, read, i as int + 1);
                }
                return Err(error);
            },
            Ok(config) => {
                proof {
                    table.lemma_wf();
                    lemma_bind_lift(table.pairs(), sections@[i as int].name@, config, |config: AwsConfig| config@);
                }
                table.insert(sections[i].name.clone(), config);
            },
        }
        i += 1;
    }
    assert(views.take(sections.len() as int) =~= views);
    Ok(table)
}

/// Reads the settings file from its text.
pub fn load_config(text: &str) -> (configs: Result<Table<AwsConfig>, LoadError>)
    ensures
        match configs {
            Ok(table) => table.wf() && aws_configs_of_text(text@) == Ok::<Seq<(Seq<char>, AwsConfigView)>, LoadError>(
                aws_config_views(table),
            ),
            Err(error) => aws_configs_of_text(text@) == Err::<Seq<(Seq<char>, AwsConfigView)>, LoadError>(error),
        },
{
    match parse_items(text) {
        None => Err(LoadError::Syntax),
        Some(items) => config_from_items(&items),
    }
}

/// What happened outside since the last step.
#[derive(Debug, Clone, PartialEq, Eq)]
pub enum Event {
    /// Nothing yet: the operation begins.
    Start,
    /// The probe ran and exited.
    ProbeExited { success: bool },
    /// The login ran and exited.
    LoginExited { success: bool },
    /// The exchange ran and exited; these are its two streams.
    ExchangeFinished { stdout: Vec<u8>, stderr: Vec<u8> },
    /// The credentials file was written and flushed.
    StoreWritten,
    /// The command could not be run at all.
    CommandFailed { reason: String },
    /// The credentials file could not be written.
    WriteFailed { reason: String },
}

/// An event, with the contents of its strings and vectors.
pub enum EventView {
    Start,
    ProbeExited { success: bool },
    LoginExited { success: bool },
    ExchangeFinished { stdout: Seq<u8>, stderr: Seq<u8> },
    StoreWritten,
    CommandFailed { reason: Seq<char> },
    WriteFailed { reason: Seq<char> },
}

impl View for Event {
    type V = EventView;

    open spec fn view(&self) -> EventView {
        match self {
            Event::Start => EventView::Start,
            Event::ProbeExited { success } => EventView::ProbeExited { success: *success },
            Event::LoginExited { success } => EventView::LoginExited { success: *success },
            Event::ExchangeFinished { stdout, stderr } => EventView::ExchangeFinished {
                stdout: stdout@,
                stderr: stderr@,
            },
            Event::StoreWritten => EventView::StoreWritten,
            Event::CommandFailed { reason } => EventView::CommandFailed { reason: reason@ },
            Event::WriteFailed { reason } => EventView::WriteFailed { reason: reason@ },
        }
    }
}

/// What is to be done outside next.
#[derive(Debug, Clone, PartialEq, Eq)]
pub enum Action {
    /// Run the command with its output discarded and report how it exited.
    Probe(Invocation),
    /// Run the command on the operator's terminal and report how it exited.
    Login(Invocation),
    /// Run the command and report what it wrote to its two streams.
    Exchange(Invocation),
    /// Replace the whole file at the path by the contents, and flush.
    WriteStore { path: String, contents: String },
    /// Nothing more: the role is assumed.
    Succeed,
    /// Nothing more: the operation failed.
    Fail(AssumeError),
}

/// An action, with the texts of its strings.
pub enum ActionView {
    Probe(InvocationView),
    Login(InvocationView),
    Exchange(InvocationView),
    WriteStore { path: Seq<char>, contents: Seq<char> },
    Succeed,
    Fail(ErrorView),
}

impl View for Action {
    type V = ActionView;

    open spec fn view(&self) -> ActionView {
        match self {
            Action::Probe(command) => ActionView::Probe(command@),
            Action::Login(command) => ActionView::Login(command@),
            Action::Exchange(command) => ActionView::Exchange(command@),
            Action::WriteStore { path, contents } => ActionView::WriteStore { path: path@, contents: contents@ },
            Action::Succeed => ActionView::Succeed,
            Action::Fail(error) => ActionView::Fail(error@),
        }
    }
}

/// The client: the directory of its files, the credentials of every
/// profile and the settings of every profile.
pub struct AwsClient {
    root: String,
    credentials: CredentialStore,
    aws_config: Table<AwsConfig>,
}

/// What a client holds.
pub struct ClientView {
    pub root: Seq<char>,
    pub credentials: Seq<(Seq<char>, EntryView)>,
    pub aws_config: Seq<(Seq<char>, AwsConfigView)>,
}

impl View for AwsClient {
    type V = ClientView;

    closed spec fn view(&self) -> ClientView {
        ClientView {
            root: self.root@,
            credentials: self.credentials.pairs(),
            aws_config: aws_config_views(self.aws_config),
        }
    }
}

/// The directory of the client's files under a home directory.
pub open spec fn root_of(home: Seq<char>) -> Seq<char> {
    home + "/.aws"@
}

/// The path of the settings file in the client's directory.
pub open spec fn config_path_of(root: Seq<char>) -> Seq<char> {
    root + "/config"@
}

/// The path of the credentials file in the client's directory.
pub open spec fn credentials_path_of(root: Seq<char>) -> Seq<char> {
    root + "/credentials"@
}

/// The directory of the client's files under a home directory.
pub fn aws_root(home: &str) -> (root: String)
    ensures
        root@ == root_of(home@),
{
    home.to_owned().concat("/.aws")
}

/// The path of the settings file in the client's directory.
pub fn config_path(root: &str) -> (path: String)
    ensures
        path@ == config_path_of(root@),
{
    root.to_owned().concat("/config")
}

/// The path of the credentials file in the client's directory.
pub fn credentials_path(root: &str) -> (path: String)
    ensures
        path@ == credentials_path_of(root@),
{
    root.to_owned().concat("/credentials")
}

/// The client after an event, and what is to be done next.
///
/// The operation begins with the probe. A valid session leads straight to
/// the exchange, an invalid one to the login, and only a successful login
/// leads on to the exchange. The answer of the exchange is merged into the
/// credentials of the profile, and the whole file is written anew. Every
/// failure ends the operation; nothing is tried twice.
pub open spec fn next(
    client: ClientView,
    profile: Seq<char>,
    role_arn: Seq<char>,
    name: Seq<char>,
    event: EventView,
) -> (ClientView, ActionView) {
    match event {
        EventView::Start => (client, ActionView::Probe(probe_invocation(profile))),
        EventView::ProbeExited { success } => if success {
            (client, ActionView::Exchange(exchange_invocation(profile, role_arn, name)))
        } else {
            (client, ActionView::Login(login_invocation(profile)))
        },
        EventView::LoginExited { success } => if success {
            (client, ActionView::Exchange(exchange_invocation(profile, role_arn, name)))
        } else {
            (client, ActionView::Fail(ErrorView::ReauthenticationFailed))
        },
        EventView::ExchangeFinished { stdout, stderr } => match exchange_result(stdout, stderr) {
            Err(error) => (client, ActionView::Fail(error)),
            Ok(response) => {
                let credentials = merged(client.credentials, profile, response.credentials);
                (
                    ClientView { credentials, ..client },
                    ActionView::WriteStore {
                        path: credentials_path_of(client.root),
                        contents: store_text(credentials),
                    },
                )
            },
        },
        EventView::StoreWritten => (client, ActionView::Succeed),
        EventView::CommandFailed { reason } => (client, ActionView::Fail(ErrorView::CommandFailed(reason))),
        EventView::WriteFailed { reason } => (client, ActionView::Fail(ErrorView::StoreWriteError(reason))),
    }
}

impl AwsClient {
    /// The validity of a client: no profile has two entries or two settings.
    pub closed spec fn wf(&self) -> bool {
        self.credentials.wf() && self.aws_config.wf()
    }

    /// In a valid client the profiles of the credentials are distinct.
    pub proof fn lemma_wf(&self)
        requires
            self.wf(),
        ensures
            distinct_names(self@.credentials),
    {
        self.credentials.lemma_wf();
    }

    /// The client for a home directory, with the settings and the
    /// credentials that were read from its files.
    pub fn new(home: &str, aws_config: Table<AwsConfig>, credentials: CredentialStore) -> (client: Self)
        ensures
            client.wf(),
            client@ == (ClientView {
                root: root_of(home@),
                credentials: credentials.pairs(),
                aws_config: aws_config_views(aws_config),
            }),
    {
        credentials.recall_wf();
        aws_config.recall_wf();
        AwsClient { root: aws_root(home), credentials, aws_config }
    }

    /// The directory of the client's files.
    pub fn root(&self) -> (root: &String)
        ensures
            root@ == self@.root,
    {
        &self.root
    }

    /// The credentials of every profile.
    pub fn credentials(&self) -> (store: &CredentialStore)
        ensures
            store.wf(),
            store.pairs() == self@.credentials,
    {
        self.credentials.recall_wf();
        &self.credentials
    }

    /// The settings of every profile.
    pub fn aws_config(&self) -> (table: &Table<AwsConfig>)
        ensures
            table.wf(),
            aws_config_views(*table) == self@.aws_config,
    {
        self.aws_config.recall_wf();
        &self.aws_config
    }

    /// Merges the credentials of an answer into the entry of a profile and
    /// gives the order to write the whole file anew.
    pub fn write_credentials(&mut self, profile: &str, response: &StsResponse) -> (action: Action)
        ensures
            final(self).wf(),
            final(self)@ == (ClientView {
                credentials: merged(old(self)@.credentials, profile@, response@.credentials),
                ..old(self)@
            }),
            action@ == (ActionView::WriteStore {
                path: credentials_path_of(old(self)@.root),
                contents: store_text(final(self)@.credentials),
            }),
    {
        self.aws_config.recall_wf();
        self.credentials.merge(profile, &response.credentials);
        let contents = self.credentials.to_text();
        let path = credentials_path(self.root.as_str());
        Action::WriteStore { path, contents }
    }

    /// One step of assuming a role for a profile: takes what happened
    /// outside and says what is to be done next.
    pub fn assume_role(&mut self, profile: &str, role_arn: &str, name: &str, event: Event) -> (action: Action)
        ensures
            final(self).wf(),
            (final(self)@, action@) == next(old(self)@, profile@, role_arn@, name@, event@),
    {
        self.credentials.recall_wf();
        self.aws_config.recall_wf();
        match event {
            Event::Start => Action::Probe(probe_command(profile)),
            Event::ProbeExited { success } => match check_logged_in(success) {
                Ok(()) => Action::Exchange(exchange_command(profile, role_arn, name)),
                Err(_) => Action::Login(login_command(profile)),
            },
            Event::LoginExited { success } => match log_in(success) {
                Ok(()) => Action::Exchange(exchange_command(profile, role_arn, name)),
                Err(error) => Action::Fail(error),
            },
            Event::ExchangeFinished { stdout, stderr } => match get_credentials(stdout, stderr) {
                Ok(response) => self.write_credentials(profile, &response),
                Err(error) => Action::Fail(error),
            },
            Event::StoreWritten => Action::Succeed,
            Event::CommandFailed { reason } => Action::Fail(AssumeError::CommandFailed(reason)),
            Event::WriteFailed { reason } => Action::Fail(AssumeError::StoreWriteError(reason)),
        }
    }
}

} // verus!

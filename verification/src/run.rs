//! Whole runs of the operation, from its first step to its last.

use crate::aws::{
    exchange_invocation, exchange_result, login_invocation, next, probe_invocation, ActionView, ClientView,
    EventView,
};
use crate::credentials::{
    lemma_merge_keeps_others, lemma_merged_round_trip, merged, store_items, store_of_items, store_text, EntryView,
};
use crate::error::ErrorView;
use crate::ini::LoadError;
use crate::sts::{response_of_text, StsResponseView};
use crate::table::distinct_names;
use crate::text::shown_text;
use vstd::prelude::*;
use vstd::utf8::{decode_utf8, valid_utf8};

verus! {

/// What the outside answers to each kind of action.
pub struct World {
    pub probe: EventView,
    pub login: EventView,
    pub exchange: EventView,
    pub write: EventView,
}

impl World {
    /// Each answer is one that its action can have: a command exits or cannot
    /// be run, a file is written or cannot be written.
    pub open spec fn sound(self) -> bool {
        &&& self.probe is ProbeExited || self.probe is CommandFailed
        &&& self.login is LoginExited || self.login is CommandFailed
        &&& self.exchange is ExchangeFinished || self.exchange is CommandFailed
        &&& self.write is StoreWritten || self.write is WriteFailed
    }

    /// The answer to an action; `None` where the action ends the operation.
    pub open spec fn reply(self, action: ActionView) -> Option<EventView> {
        match action {
            ActionView::Probe(_) => Some(self.probe),
            ActionView::Login(_) => Some(self.login),
            ActionView::Exchange(_) => Some(self.exchange),
            ActionView::WriteStore { .. } => Some(self.write),
            ActionView::Succeed => None,
            ActionView::Fail(_) => None,
        }
    }
}

/// Whether an action ends the operation.
pub open spec fn is_last(action: ActionView) -> bool {
    action is Succeed || action is Fail
}

/// The client at the end and the actions in order, when the operation goes
/// on from an event for at most `steps` further answers.
pub open spec fn run_from(
    client: ClientView,
    profile: Seq<char>,
    role_arn: Seq<char>,
    name: Seq<char>,
    world: World,
    event: EventView,
    steps: nat,
) -> (ClientView, Seq<ActionView>)
    decreases steps,
{
    let (after, action) = next(client, profile, role_arn, name, event);
    match world.reply(action) {
        Some(answer) if steps > 0 => {
            let (end, rest) = run_from(after, profile, role_arn, name, world, answer, (steps - 1) as nat);
            (end, seq![action] + rest)
        },
        _ => (after, seq![action]),
    }
}

/// The client at the end and the actions in order, when a role is assumed
/// for a profile in a world.
pub open spec fn run(
    client: ClientView,
    profile: Seq<char>,
    role_arn: Seq<char>,
    name: Seq<char>,
    world: World,
) -> (ClientView, Seq<ActionView>) {
    run_from(client, profile, role_arn, name, world, EventView::Start, 4)
}

/// Whether the exchange is reached: the session is valid, or it is not and
/// the login succeeds.
pub open spec fn reaches_exchange(world: World) -> bool {
    ||| world.probe == (EventView::ProbeExited { success: true })
    ||| world.probe == (EventView::ProbeExited { success: false }) && world.login == (EventView::LoginExited {
        success: true,
    })
}

/// Every run ends: it has at most five actions, the last one ends the
/// operation and no earlier one does. The first action is always the probe.
pub proof fn lemma_run_ends(client: ClientView, profile: Seq<char>, role_arn: Seq<char>, name: Seq<char>, world: World)
    requires
        world.sound(),
    ensures
        ({
            let actions = run(client, profile, role_arn, name, world).1;
            &&& 1 <= actions.len() <= 5
            &&& actions[0] == ActionView::Probe(probe_invocation(profile))
            &&& is_last(actions.last())
            &&& forall|i: int| 0 <= i < actions.len() - 1 ==> !is_last(#[trigger] actions[i])
        }),
{
    reveal_with_fuel(run_from, 5);
}

/// The kind of an action, as a number: the kinds stand in the order in which
/// a run can reach them.
pub open spec fn kind_of(action: ActionView) -> int {
    match action {
        ActionView::Probe(_) => 0,
        ActionView::Login(_) => 1,
        ActionView::Exchange(_) => 2,
        ActionView::WriteStore { .. } => 3,
        ActionView::Succeed => 4,
        ActionView::Fail(_) => 4,
    }
}

/// Nothing is tried twice: along a run the kinds of the actions only go
/// forward, so the probe, the login, the exchange and the write each run at
/// most once.
pub proof fn lemma_nothing_runs_twice(
    client: ClientView,
    profile: Seq<char>,
    role_arn: Seq<char>,
    name: Seq<char>,
    world: World,
)
    requires
        world.sound(),
    ensures
        ({
            let actions = run(client, profile, role_arn, name, world).1;
            forall|i: int, j: int|
                0 <= i < j < actions.len() ==> kind_of(#[trigger] actions[i]) < kind_of(#[trigger] actions[j])
        }),
{
    reveal_with_fuel(run_from, 5);
}

/// Where the session is invalid and the login fails, the operation ends
/// with that failure: the exchange is never run, nothing is merged and no
/// file is written.
pub proof fn lemma_failed_login_ends_run(
    client: ClientView,
    profile: Seq<char>,
    role_arn: Seq<char>,
    name: Seq<char>,
    world: World,
)
    requires
        world.probe == (EventView::ProbeExited { success: false }),
        world.login == (EventView::LoginExited { success: false }),
    ensures
        run(client, profile, role_arn, name, world) == (
            client,
            seq![
                ActionView::Probe(probe_invocation(profile)),
                ActionView::Login(login_invocation(profile)),
                ActionView::Fail(ErrorView::ReauthenticationFailed),
            ],
        ),
{
    reveal_with_fuel(run_from, 5);
    let expected = seq![
        ActionView::Probe(probe_invocation(profile)),
        ActionView::Login(login_invocation(profile)),
        ActionView::Fail(ErrorView::ReauthenticationFailed),
    ];
    assert(run(client, profile, role_arn, name, world).1 =~= expected);
}

/// Where the session is valid, the login is never run.
pub proof fn lemma_valid_session_skips_login(
    client: ClientView,
    profile: Seq<char>,
    role_arn: Seq<char>,
    name: Seq<char>,
    world: World,
)
    requires
        world.sound(),
        world.probe == (EventView::ProbeExited { success: true }),
    ensures
        ({
            let actions = run(client, profile, role_arn, name, world).1;
            forall|i: int| 0 <= i < actions.len() ==> !(#[trigger] actions[i] is Login)
        }),
{
    reveal_with_fuel(run_from, 5);
}

/// Where the exchange is reached and its streams amount to an error, the
/// operation ends with that error: nothing is merged and no file is
/// written.
pub proof fn lemma_failed_exchange_ends_run(
    client: ClientView,
    profile: Seq<char>,
    role_arn: Seq<char>,
    name: Seq<char>,
    world: World,
    stdout: Seq<u8>,
    stderr: Seq<u8>,
    error: ErrorView,
)
    requires
        reaches_exchange(world),
        world.exchange == (EventView::ExchangeFinished { stdout, stderr }),
        exchange_result(stdout, stderr) == Err::<StsResponseView, ErrorView>(error),
    ensures
        ({
            let (end, actions) = run(client, profile, role_arn, name, world);
            &&& end == client
            &&& actions.last() == ActionView::Fail(error)
            &&& forall|i: int| 0 <= i < actions.len() ==> !(#[trigger] actions[i] is WriteStore)
        }),
{
    reveal_with_fuel(run_from, 5);
}

/// Anything on the exchange's error stream is a rejection, whatever the
/// exchange wrote to its output. It carries the text of the stream, which
/// for a stream in UTF-8 is the very text that the bytes encode.
pub proof fn lemma_error_stream_rejects(stdout: Seq<u8>, stderr: Seq<u8>)
    requires
        stderr.len() > 0,
    ensures
        exchange_result(stdout, stderr) == Err::<StsResponseView, ErrorView>(
            ErrorView::ExchangeRejected(shown_text(stderr)),
        ),
        valid_utf8(stderr) ==> exchange_result(stdout, stderr) == Err::<StsResponseView, ErrorView>(
            ErrorView::ExchangeRejected(decode_utf8(stderr)),
        ),
{
}

/// With a silent error stream, output that is not UTF-8, or that holds no
/// complete answer, is a malformed answer.
pub proof fn lemma_unreadable_output_is_malformed(stdout: Seq<u8>)
    requires
        !valid_utf8(stdout) || response_of_text(decode_utf8(stdout)) is None,
    ensures
        exchange_result(stdout, Seq::empty()) == Err::<StsResponseView, ErrorView>(
            ErrorView::ExchangeResponseMalformed,
        ),
{
}

/// Where the exchange is reached and answers, and the file is written, the
/// operation succeeds: the answer's credentials are merged into the
/// profile's entry, and the file that was written holds the merged store.
pub proof fn lemma_answer_is_merged_and_written(
    client: ClientView,
    profile: Seq<char>,
    role_arn: Seq<char>,
    name: Seq<char>,
    world: World,
    stdout: Seq<u8>,
    stderr: Seq<u8>,
    response: StsResponseView,
)
    requires
        reaches_exchange(world),
        world.exchange == (EventView::ExchangeFinished { stdout, stderr }),
        exchange_result(stdout, stderr) == Ok::<StsResponseView, ErrorView>(response),
        world.write == EventView::StoreWritten,
    ensures
        ({
            let (end, actions) = run(client, profile, role_arn, name, world);
            let credentials = merged(client.credentials, profile, response.credentials);
            &&& end == (ClientView { credentials, ..client })
            &&& actions.len() >= 3
            &&& actions.last() == ActionView::Succeed
            &&& actions[actions.len() - 2] == (ActionView::WriteStore {
                path: crate::aws::credentials_path_of(client.root),
                contents: store_text(credentials),
            })
            &&& actions[actions.len() - 3] == ActionView::Exchange(exchange_invocation(profile, role_arn, name))
        }),
{
    reveal_with_fuel(run_from, 5);
}

/// The lines of the file that a successful run writes read back to the
/// credentials that the client holds at the end of the run.
pub proof fn lemma_written_store_reads_back(
    client: ClientView,
    profile: Seq<char>,
    role_arn: Seq<char>,
    name: Seq<char>,
    world: World,
    stdout: Seq<u8>,
    stderr: Seq<u8>,
    response: StsResponseView,
)
    requires
        distinct_names(client.credentials),
        reaches_exchange(world),
        world.exchange == (EventView::ExchangeFinished { stdout, stderr }),
        exchange_result(stdout, stderr) == Ok::<StsResponseView, ErrorView>(response),
        world.write == EventView::StoreWritten,
    ensures
        ({
            let end = run(client, profile, role_arn, name, world).0;
            &&& distinct_names(end.credentials)
            &&& store_of_items(store_items(end.credentials)) == Ok::<Seq<(Seq<char>, EntryView)>, LoadError>(
                end.credentials,
            )
        }),
{
    lemma_answer_is_merged_and_written(client, profile, role_arn, name, world, stdout, stderr, response);
    lemma_merge_keeps_others(client.credentials, profile, response.credentials);
    lemma_merged_round_trip(client.credentials, profile, response.credentials);
}

} // verus!

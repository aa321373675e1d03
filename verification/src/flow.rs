//! One run of the program, from its settings to its report.
//!
//! The run is a state machine that never touches the network: it names the
//! request that it wants sent, a driver sends it, and the run resumes with
//! the reply. It starts with the settings and has two states in which it
//! waits, [`Stage::CredentialsGiven`] for the reply of the token endpoint and
//! [`Stage::ClientConfigured`] for the reply of the days endpoint. Between the
//! two the token is known and the client is built; after the second the
//! days are listed and the run is done. The first failure ends the run, in
//! whatever state it comes, and no request is sent twice. [`State`] names
//! the states, [`transition`] the ways between them.

use crate::error::{ClientError, ClientErrorView, ConfigFault};
use crate::json::{decoded, JsonView};
use crate::motion_tag::{
    client_of, days_of_reply, days_request_of, days_url, lemma_endpoints_differ,
    lemma_requests_admitted, token_of_reply, token_request, token_request_of, token_url,
    ApiClient, ApiClientView,
};
use crate::text::{decimal, push_decimal};
use crate::wire::{admitted, header_text, success, Reply, ReplyView, Request, RequestView};
use vstd::prelude::*;
use vstd::string::StringExecFns;

verus! {

/// What the operator asks for. An empty text stands for what was not given.
#[derive(Debug, Clone, PartialEq, Eq)]
pub struct Settings {
    pub url: String,
    pub username: String,
    pub password: String,
    pub token: String,
}

/// The mathematical value of [`Settings`].
pub struct SettingsView {
    pub url: Seq<char>,
    pub username: Seq<char>,
    pub password: Seq<char>,
    pub token: Seq<char>,
}

impl View for Settings {
    type V = SettingsView;

    open spec fn view(&self) -> SettingsView {
        SettingsView {
            url: self.url@,
            username: self.username@,
            password: self.password@,
            token: self.token@,
        }
    }
}

/// Where a line of the report goes.
#[derive(Debug, Clone, Copy, PartialEq, Eq)]
pub enum Stream {
    Stdout,
    Stderr,
}

/// How a run ends: one line for the operator and the exit code.
#[derive(Debug, Clone, PartialEq, Eq)]
pub struct Report {
    pub stream: Stream,
    pub line: String,
    pub exit_code: i32,
}

/// The mathematical value of a [`Report`].
pub struct ReportView {
    pub stream: Stream,
    pub line: Seq<char>,
    pub exit_code: i32,
}

impl View for Report {
    type V = ReportView;

    open spec fn view(&self) -> ReportView {
        ReportView { stream: self.stream, line: self.line@, exit_code: self.exit_code }
    }
}

/// The report of a run that listed `count` days.
pub open spec fn success_report(count: nat) -> ReportView {
    ReportView { stream: Stream::Stdout, line: "Total days: "@ + decimal(count), exit_code: 0 }
}

/// The report of a run that failed. Missing credentials are reported by
/// their message alone, every other failure behind `Error: `.
pub open spec fn failure_report(failure: ClientErrorView) -> ReportView {
    ReportView {
        stream: Stream::Stderr,
        line: if failure == ClientErrorView::ConfigError(ConfigFault::MissingCredentials) {
            failure.message()
        } else {
            "Error: "@ + failure.message()
        },
        exit_code: 1,
    }
}

/// The report of a run that ended with `outcome`.
pub open spec fn report_of(outcome: Result<Seq<Seq<char>>, ClientErrorView>) -> ReportView {
    match outcome {
        Ok(dates) => success_report(dates.len()),
        Err(failure) => failure_report(failure),
    }
}

/// Writes the report of a run that listed `count` days.
pub fn report_success(count: usize) -> (report: Report)
    ensures
        report@ == success_report(count as nat),
{
    let mut line = String::from_str("Total days: ");
    push_decimal(&mut line, count as u64);
    Report { stream: Stream::Stdout, line, exit_code: 0 }
}

/// Writes the report of a run that failed.
pub fn report_failure(failure: &ClientError) -> (report: Report)
    ensures
        report@ == failure_report(failure@),
{
    let message = failure.message();
    let line = match failure {
        ClientError::ConfigError(ConfigFault::MissingCredentials) => message,
        _ => {
            let mut line = String::from_str("Error: ");
            line.append(message.as_str());
            line
        },
    };
    Report { stream: Stream::Stderr, line, exit_code: 1 }
}

/// A state in which the run waits for a reply.
#[derive(Debug, PartialEq, Eq)]
pub enum Stage {
    /// The credentials are on their way to the token endpoint.
    CredentialsGiven { base_url: String },
    /// The client is configured and its request for the days is on its way.
    ClientConfigured(ApiClient),
}

/// The mathematical value of a [`Stage`].
pub enum StageView {
    CredentialsGiven { base_url: Seq<char> },
    ClientConfigured(ApiClientView),
}

impl View for Stage {
    type V = StageView;

    open spec fn view(&self) -> StageView {
        match self {
            Stage::CredentialsGiven { base_url } => StageView::CredentialsGiven {
                base_url: base_url@,
            },
            Stage::ClientConfigured(client) => StageView::ClientConfigured(client@),
        }
    }
}

/// What the driver is to do next.
#[derive(Debug, PartialEq, Eq)]
pub enum Step {
    /// Send the request, then resume the run in this stage with the reply.
    Send(Stage, Request),
    /// Print the report and exit: the run is over.
    Exit(Report),
}

/// The mathematical value of a [`Step`].
pub enum StepView {
    Send(StageView, RequestView),
    Exit(ReportView),
}

impl View for Step {
    type V = StepView;

    open spec fn view(&self) -> StepView {
        match self {
            Step::Send(stage, request) => StepView::Send(stage@, request@),
            Step::Exit(report) => StepView::Exit(report@),
        }
    }
}

/// The step from a known token: the configured client asks for the days, and
/// a token that no header can carry ends the run.
pub open spec fn configured_of(base_url: Seq<char>, token: Seq<char>) -> StepView {
    match client_of(base_url, token) {
        Ok(client) => StepView::Send(
            StageView::ClientConfigured(client),
            days_request_of(client.base_url, client.token),
        ),
        Err(failure) => StepView::Exit(failure_report(failure)),
    }
}

/// The first step of a run. A token that was given is used as it stands.
/// Without one, both credentials must be there: they go to the token
/// endpoint, and where either is missing the run ends at once.
pub open spec fn start_of(settings: SettingsView) -> StepView {
    if settings.token.len() > 0 {
        configured_of(settings.url, settings.token)
    } else if settings.username.len() == 0 || settings.password.len() == 0 {
        StepView::Exit(failure_report(ClientErrorView::ConfigError(ConfigFault::MissingCredentials)))
    } else {
        StepView::Send(
            StageView::CredentialsGiven { base_url: settings.url },
            token_request_of(settings.url, settings.username, settings.password),
        )
    }
}

/// The step that a reply leads to. The reply of the token endpoint yields
/// the token to configure the client with; the reply of the days endpoint
/// yields the dates to report. Every failure ends the run.
pub open spec fn resume_of(stage: StageView, reply: ReplyView) -> StepView {
    match stage {
        StageView::CredentialsGiven { base_url } => match token_of_reply(reply) {
            Ok(token) => configured_of(base_url, token),
            Err(failure) => StepView::Exit(failure_report(failure)),
        },
        StageView::ClientConfigured(client) => StepView::Exit(report_of(days_of_reply(reply))),
    }
}

/// Goes on from client construction: asks for the days, or ends the run
/// where no client was built.
fn configured(client: Result<ApiClient, ClientError>) -> (step: Step)
    ensures
        step@ == (match client {
            Ok(client) => StepView::Send(
                StageView::ClientConfigured(client@),
                days_request_of(client@.base_url, client@.token),
            ),
            Err(failure) => StepView::Exit(failure_report(failure@)),
        }),
        step matches Step::Send(_, request) ==> admitted(request@),
{
    match client {
        Ok(client) => {
            let request = client.days_request();
            Step::Send(Stage::ClientConfigured(client), request)
        },
        Err(failure) => Step::Exit(report_failure(&failure)),
    }
}

/// Takes the first step of a run. A request that it wants sent carries only
/// header values that a header may hold.
pub fn start(settings: &Settings) -> (step: Step)
    ensures
        step@ == start_of(settings@),
        step matches Step::Send(_, request) ==> admitted(request@),
{
    if !settings.token.as_str().is_empty() {
        configured(ApiClient::new_from_token(settings.url.as_str(), settings.token.as_str()))
    } else if settings.username.as_str().is_empty() || settings.password.as_str().is_empty() {
        Step::Exit(report_failure(&ClientError::ConfigError(ConfigFault::MissingCredentials)))
    } else {
        let request = token_request(
            settings.url.as_str(),
            settings.username.as_str(),
            settings.password.as_str(),
        );
        Step::Send(Stage::CredentialsGiven { base_url: settings.url.clone() }, request)
    }
}

/// Resumes a run with the reply to the request that it wanted sent. A
/// request that it wants sent next carries only header values that a header
/// may hold.
pub fn resume(stage: Stage, reply: &Reply) -> (step: Step)
    ensures
        step@ == resume_of(stage@, reply@),
        step matches Step::Send(_, request) ==> admitted(request@),
{
    match stage {
        Stage::CredentialsGiven { base_url } => configured(
            ApiClient::new_from_user(base_url.as_str(), reply),
        ),
        Stage::ClientConfigured(client) => match client.get_days(reply) {
            Ok(dates) => Step::Exit(report_success(dates.len())),
            Err(failure) => Step::Exit(report_failure(&failure)),
        },
    }
}

/// The states of a run. In `Start` the run has its settings and nothing
/// else; in `CredentialsGiven` and `ClientConfigured` it waits for a reply;
/// `TokenKnown` and `DaysListed` it passes without waiting; `Done` and
/// `Failed` end it.
#[derive(Debug, Clone, Copy, PartialEq, Eq)]
pub enum State {
    Start,
    TokenKnown,
    CredentialsGiven,
    ClientConfigured,
    DaysListed,
    Done,
    Failed,
}

/// The transitions of a run: from the start to a known token or to given
/// credentials, from either to the configured client, from there to the
/// listed days and on to the end, and from every state in which something
/// can fail to the failure.
pub open spec fn transition(from: State, to: State) -> bool {
    match from {
        State::Start => to is TokenKnown || to is CredentialsGiven || to is Failed,
        State::TokenKnown => to is ClientConfigured || to is Failed,
        State::CredentialsGiven => to is ClientConfigured || to is Failed,
        State::ClientConfigured => to is DaysListed || to is Failed,
        State::DaysListed => to is Done,
        State::Done => false,
        State::Failed => false,
    }
}

/// The state in which a step leaves the run: the stage in which it waits,
/// and at the exit `Done` or `Failed` as the exit code tells.
pub open spec fn state_of(step: StepView) -> State {
    match step {
        StepView::Send(StageView::CredentialsGiven { .. }, _) => State::CredentialsGiven,
        StepView::Send(StageView::ClientConfigured(_), _) => State::ClientConfigured,
        StepView::Exit(report) => if report.exit_code == 0 {
            State::Done
        } else {
            State::Failed
        },
    }
}

impl Step {
    /// The state in which this step leaves the run.
    pub fn state(&self) -> (state: State)
        ensures
            state == state_of(self@),
    {
        match self {
            Step::Send(Stage::CredentialsGiven { .. }, _) => State::CredentialsGiven,
            Step::Send(Stage::ClientConfigured(_), _) => State::ClientConfigured,
            Step::Exit(report) => if report.exit_code == 0 {
                State::Done
            } else {
                State::Failed
            },
        }
    }
}

/// The state in which a run waits in `stage`.
pub open spec fn state_of_stage(stage: StageView) -> State {
    match stage {
        StageView::CredentialsGiven { .. } => State::CredentialsGiven,
        StageView::ClientConfigured(_) => State::ClientConfigured,
    }
}

/// One step of a run: one transition, or two through a state that the run
/// passes without waiting.
pub open spec fn steps_to(from: State, to: State) -> bool {
    ||| transition(from, to)
    ||| transition(from, State::TokenKnown) && transition(State::TokenKnown, to)
    ||| transition(from, State::DaysListed) && transition(State::DaysListed, to)
}

/// Every step of a run follows the transitions: the first step leads from
/// the start, and the step that a reply leads to leads from the stage that
/// waited for it. A run that takes the token as given goes by `TokenKnown`,
/// and a run ends in `Done` only by `DaysListed`.
pub proof fn law_steps_follow_transitions(
    settings: SettingsView,
    stage: StageView,
    reply: ReplyView,
)
    ensures
        steps_to(State::Start, state_of(start_of(settings))),
        settings.token.len() > 0 ==> transition(State::TokenKnown, state_of(start_of(settings))),
        steps_to(state_of_stage(stage), state_of(resume_of(stage, reply))),
        state_of(resume_of(stage, reply)) is Done ==> stage is ClientConfigured,
        !(state_of(start_of(settings)) is Done),
{
}

/// A whole run as its driver sees it: the requests that were sent, in order,
/// and the report, unless the replies ran out before the run was over.
pub struct RunView {
    pub sent: Seq<RequestView>,
    pub report: Option<ReportView>,
}

/// The run that goes on from `step` when the requests are answered by
/// `replies`, one after the other.
pub open spec fn run_from(step: StepView, replies: Seq<ReplyView>) -> RunView
    decreases replies.len(),
{
    match step {
        StepView::Exit(report) => RunView { sent: Seq::empty(), report: Some(report) },
        StepView::Send(stage, request) => if replies.len() == 0 {
            RunView { sent: seq![request], report: None }
        } else {
            let rest = run_from(resume_of(stage, replies[0]), replies.drop_first());
            RunView { sent: seq![request] + rest.sent, report: rest.report }
        },
    }
}

/// The run of `settings` when the requests are answered by `replies`.
pub open spec fn run_of(settings: SettingsView, replies: Seq<ReplyView>) -> RunView {
    run_from(start_of(settings), replies)
}

/// A step from a known token sends nothing but the request for the days and
/// ends with the reply to it.
proof fn lemma_run_configured(base_url: Seq<char>, token: Seq<char>, replies: Seq<ReplyView>)
    ensures
        ({
            let run = run_from(configured_of(base_url, token), replies);
            &&& run.sent.len() <= 1
            &&& run.sent.len() == 1 ==> run.sent[0] == days_request_of(base_url, token)
                && header_text(token)
            &&& replies.len() >= 1 ==> run.report is Some
        }),
{
    reveal_with_fuel(run_from, 2);
}

/// No retries: whatever the replies, a run sends at most two requests, and
/// two replies are enough to end it.
pub proof fn law_no_retries(settings: SettingsView, replies: Seq<ReplyView>)
    ensures
        run_of(settings, replies).sent.len() <= 2,
        replies.len() >= 2 ==> run_of(settings, replies).report is Some,
{
    reveal_with_fuel(run_from, 2);
    if settings.token.len() > 0 {
        lemma_run_configured(settings.url, settings.token, replies);
    } else if settings.username.len() > 0 && settings.password.len() > 0 && replies.len() > 0 {
        if let Ok(token) = token_of_reply(replies[0]) {
            lemma_run_configured(settings.url, token, replies.drop_first());
        }
    }
}

/// Every failure ends the run where it comes and is reported as it is:
/// whatever the stage, a reply that amounts to a failure, or that yields a
/// token with which no client can be built, leads to the exit with the
/// report of that very failure.
pub proof fn law_failure_ends_run(stage: StageView, reply: ReplyView)
    ensures
        match stage {
            StageView::CredentialsGiven { base_url } => match token_of_reply(reply) {
                Err(failure) => resume_of(stage, reply) == StepView::Exit(failure_report(failure)),
                Ok(token) => match client_of(base_url, token) {
                    Err(failure) => resume_of(stage, reply) == StepView::Exit(
                        failure_report(failure),
                    ),
                    Ok(_) => resume_of(stage, reply) is Send,
                },
            },
            StageView::ClientConfigured(_) => match days_of_reply(reply) {
                Err(failure) => resume_of(stage, reply) == StepView::Exit(failure_report(failure)),
                Ok(dates) => resume_of(stage, reply) == StepView::Exit(
                    success_report(dates.len()),
                ),
            },
        },
{
}

/// A run exits with code 0 only after it has listed the days: the last
/// request went to the days endpoint, the reply to it yielded the dates, and
/// the report counts them on the output stream. Every other report goes to
/// the error stream with code 1.
pub proof fn law_exit_code(settings: SettingsView, replies: Seq<ReplyView>)
    ensures
        ({
            let run = run_of(settings, replies);
            run.report matches Some(report) ==> if report.exit_code == 0 {
                &&& 1 <= run.sent.len() <= replies.len()
                &&& run.sent.last().url == days_url(settings.url)
                &&& days_of_reply(replies[run.sent.len() - 1]) matches Ok(dates)
                &&& report == success_report(dates.len())
            } else {
                &&& report.exit_code == 1
                &&& report.stream == Stream::Stderr
            }
        }),
{
    reveal_with_fuel(run_from, 3);
    if settings.token.len() > 0 {
        lemma_run_configured(settings.url, settings.token, replies);
    } else if settings.username.len() > 0 && settings.password.len() > 0 && replies.len() > 0 {
        if let Ok(token) = token_of_reply(replies[0]) {
            lemma_run_configured(settings.url, token, replies.drop_first());
        }
    }
}

/// Whatever the settings and the replies, every request that a run sends
/// carries only header values that a header may hold.
pub proof fn law_requests_admitted(settings: SettingsView, replies: Seq<ReplyView>)
    ensures
        forall|i: int|
            0 <= i < run_of(settings, replies).sent.len() ==> admitted(
                #[trigger] run_of(settings, replies).sent[i],
            ),
{
    reveal_with_fuel(run_from, 2);
    let run = run_of(settings, replies);
    lemma_requests_admitted(settings.url, settings.username, settings.password, settings.token);
    if settings.token.len() > 0 {
        lemma_run_configured(settings.url, settings.token, replies);
    } else if settings.username.len() > 0 && settings.password.len() > 0 && replies.len() > 0 {
        if let Ok(token) = token_of_reply(replies[0]) {
            lemma_run_configured(settings.url, token, replies.drop_first());
            lemma_requests_admitted(settings.url, settings.username, settings.password, token);
        }
    }
}

/// With a token given, the token path is taken whatever the credentials are:
/// the only request that a run ever sends is the request for the days, which
/// presents that token, and none goes to the token endpoint.
pub proof fn law_token_skips_exchange(settings: SettingsView, replies: Seq<ReplyView>)
    requires
        settings.token.len() > 0,
    ensures
        ({
            let run = run_of(settings, replies);
            &&& run.sent.len() <= 1
            &&& forall|i: int|
                0 <= i < run.sent.len() ==> {
                    &&& #[trigger] run.sent[i] == days_request_of(settings.url, settings.token)
                    &&& run.sent[i].url != token_url(settings.url)
                }
        }),
{
    lemma_run_configured(settings.url, settings.token, replies);
    lemma_endpoints_differ(settings.url);
}

/// With neither a token nor both credentials, a run sends nothing and ends
/// at once: it tells the operator on the error stream that the credentials
/// are missing, and exits with code 1.
pub proof fn law_missing_credentials(settings: SettingsView, replies: Seq<ReplyView>)
    requires
        settings.token.len() == 0,
        settings.username.len() == 0 || settings.password.len() == 0,
    ensures
        run_of(settings, replies).sent.len() == 0,
        run_of(settings, replies).report == Some(
            ReportView {
                stream: Stream::Stderr,
                line: "Username and password is missing."@,
                exit_code: 1,
            },
        ),
{
}

/// Token acquisition yields the token of the reply whatever the credentials
/// are. With both credentials and no token the first request of a run is the
/// token request for them, and if the reply to it is a successful response
/// whose document has the string member `access_token`, the token is that
/// string exactly; if a header can carry it, the run goes on to ask for the
/// days with it.
pub proof fn law_token_acquisition(
    settings: SettingsView,
    status: u16,
    body: Seq<u8>,
    doc: JsonView,
    token: Seq<char>,
    replies: Seq<ReplyView>,
)
    requires
        settings.token.len() == 0,
        settings.username.len() > 0,
        settings.password.len() > 0,
        success(status),
        decoded(body) == Some(doc),
        doc.member("access_token"@) == Some(JsonView::Text(token)),
        replies.len() > 0,
        replies[0] == (ReplyView::Response { status, body }),
    ensures
        token_of_reply(replies[0]) == Ok::<Seq<char>, ClientErrorView>(token),
        run_of(settings, replies).sent[0] == token_request_of(
            settings.url,
            settings.username,
            settings.password,
        ),
        header_text(token) ==> run_of(settings, replies).sent.len() == 2 && run_of(
            settings,
            replies,
        ).sent[1] == days_request_of(settings.url, token),
{
    reveal_with_fuel(run_from, 3);
}

/// A status outside 200..=299 from the token endpoint ends the run with the
/// status itself in the report.
pub proof fn law_auth_failure_reports_status(
    settings: SettingsView,
    status: u16,
    body: Seq<u8>,
    replies: Seq<ReplyView>,
)
    requires
        settings.token.len() == 0,
        settings.username.len() > 0,
        settings.password.len() > 0,
        !success(status),
        replies.len() > 0,
        replies[0] == (ReplyView::Response { status, body }),
    ensures
        token_of_reply(replies[0]) == Err::<Seq<char>, ClientErrorView>(ClientErrorView::AuthError(status)),
        run_of(settings, replies).sent.len() == 1,
        run_of(settings, replies).report == Some(
            ReportView {
                stream: Stream::Stderr,
                line: "Error: "@ + ("Failed to retrieve token. Response code: "@ + decimal(
                    status as nat,
                )),
                exit_code: 1,
            },
        ),
{
    reveal_with_fuel(run_from, 3);
}

} // verus!

//! The conversation at the terminal, as a machine of stages: what to do
//! next, given the stage and what has just happened. Whoever runs it does what
//! the action says and hands back the event that came of it.

use crate::palette::Tint;
use crate::report::{
    display_of, display_weather_info, message_of, ReportError, ReportView, Styled, StyledView,
    WeatherReport,
};
use crate::request::{request_url, request_url_of};
use crate::text::{same_text, trim, trimmed};
use vstd::prelude::*;
use vstd::string::StringExecFns;

verus! {

/// Where the conversation stands.
#[derive(Clone, Debug, PartialEq, Eq)]
pub enum Stage {
    /// The city has been asked for.
    PromptCity,
    /// The country code has been asked for; the city is known.
    PromptCountry { city: String },
    /// The weather has been requested.
    Fetch,
    /// The report, or the error, is being shown.
    Display,
    /// It has been asked whether to go on.
    PromptContinue,
    /// The conversation is over.
    Terminated,
}

/// A stage as plain values.
pub enum StageView {
    PromptCity,
    PromptCountry { city: Seq<char> },
    Fetch,
    Display,
    PromptContinue,
    Terminated,
}

impl View for Stage {
    type V = StageView;

    open spec fn view(&self) -> StageView {
        match self {
            Stage::PromptCity => StageView::PromptCity,
            Stage::PromptCountry { city } => StageView::PromptCountry { city: city@ },
            Stage::Fetch => StageView::Fetch,
            Stage::Display => StageView::Display,
            Stage::PromptContinue => StageView::PromptContinue,
            Stage::Terminated => StageView::Terminated,
        }
    }
}

/// A conversation: its stage and the key that its requests carry. Nothing
/// else is kept from one round to the next.
#[derive(Clone, Debug, PartialEq, Eq)]
pub struct Session {
    pub stage: Stage,
    pub api_key: String,
}

/// A conversation as plain values.
pub struct SessionView {
    pub stage: StageView,
    pub api_key: Seq<char>,
}

impl View for Session {
    type V = SessionView;

    open spec fn view(&self) -> SessionView {
        SessionView { stage: self.stage@, api_key: self.api_key@ }
    }
}

/// What has just happened.
#[derive(Clone, Debug, PartialEq, Eq)]
pub enum Event {
    /// A line was read from the terminal, as it was typed.
    Line(String),
    /// The service answered with a report.
    Fetched(WeatherReport),
    /// The request failed, or its answer could not be read; the detail says
    /// how.
    Failed(String),
    /// What was to be shown has been printed.
    Shown,
}

/// An event as plain values.
pub enum EventView {
    Line(Seq<char>),
    Fetched(ReportView),
    Failed(Seq<char>),
    Shown,
}

impl View for Event {
    type V = EventView;

    open spec fn view(&self) -> EventView {
        match self {
            Event::Line(line) => EventView::Line(line@),
            Event::Fetched(report) => EventView::Fetched(report@),
            Event::Failed(detail) => EventView::Failed(detail@),
            Event::Shown => EventView::Shown,
        }
    }
}

/// What to do next.
#[derive(Clone, Debug, PartialEq, Eq)]
pub enum Action {
    /// Print the question and read a line; the event is the line.
    Ask(Styled),
    /// Get the address and read the answer as a report; the event is the
    /// report or the failure.
    Fetch(String),
    /// Print the report; the event is that it was shown.
    Show(Styled),
    /// Print the complaint where errors go; the event is that it was shown.
    Complain(String),
    /// Print the farewell and stop.
    Farewell(Styled),
}

/// An action as plain values.
pub enum ActionView {
    Ask(StyledView),
    Fetch(Seq<char>),
    Show(StyledView),
    Complain(Seq<char>),
    Farewell(StyledView),
}

impl View for Action {
    type V = ActionView;

    open spec fn view(&self) -> ActionView {
        match self {
            Action::Ask(question) => ActionView::Ask(question@),
            Action::Fetch(url) => ActionView::Fetch(url@),
            Action::Show(report) => ActionView::Show(report@),
            Action::Complain(complaint) => ActionView::Complain(complaint@),
            Action::Farewell(farewell) => ActionView::Farewell(farewell@),
        }
    }
}

/// The action, if there is one, as plain values.
pub open spec fn action_view(action: Option<Action>) -> Option<ActionView> {
    match action {
        Some(action) => Some(action@),
        None => None,
    }
}

/// The greeting before the first question.
pub open spec fn welcome_of() -> StyledView {
    StyledView { text: "Welcome to the Weather Station!"@, tint: Tint::BrightYellow }
}

/// The question for the city.
pub open spec fn city_question() -> StyledView {
    StyledView { text: "Please enter the name of the city:"@, tint: Tint::BrightGreen }
}

/// The question for the country code.
pub open spec fn country_question() -> StyledView {
    StyledView {
        text: "Please enter the country code(e.g. US for United States):"@,
        tint: Tint::BrightGreen,
    }
}

/// The question whether to go on.
pub open spec fn continue_question() -> StyledView {
    StyledView {
        text: "Do you want to see the weather for another city?(yes/no)"@,
        tint: Tint::Plain,
    }
}

/// The farewell.
pub open spec fn farewell_of() -> StyledView {
    StyledView { text: "Thank you for using our service!"@, tint: Tint::Plain }
}

/// The complaint about a failure with the given detail.
pub open spec fn complaint_of(detail: Seq<char>) -> Seq<char> {
    "Error: "@ + detail
}

/// What is done with a report that has arrived: it is shown, or, where it
/// holds no description, complained about.
pub open spec fn showing_of(report: ReportView) -> ActionView {
    if report.descriptions.len() > 0 {
        ActionView::Show(display_of(report))
    } else {
        ActionView::Complain(complaint_of(message_of(ReportError::EmptyWeatherData)))
    }
}

/// The stage awaits the event: a line where a question was asked, the
/// outcome of the request where one was made, the printing where something
/// is being shown. Nothing is awaited once the conversation is over.
pub open spec fn awaits(stage: StageView, event: EventView) -> bool {
    match stage {
        StageView::PromptCity
        | StageView::PromptCountry { .. }
        | StageView::PromptContinue => event is Line,
        StageView::Fetch => event is Fetched || event is Failed,
        StageView::Display => event is Shown,
        StageView::Terminated => false,
    }
}

/// The stage after an awaited event.
pub open spec fn next_stage(stage: StageView, event: EventView) -> StageView
    recommends
        awaits(stage, event),
{
    match stage {
        StageView::PromptCity => StageView::PromptCountry { city: trimmed(event->Line_0) },
        StageView::PromptCountry { .. } => StageView::Fetch,
        StageView::Fetch => StageView::Display,
        StageView::Display => StageView::PromptContinue,
        StageView::PromptContinue => if trimmed(event->Line_0) == "yes"@ {
            StageView::PromptCity
        } else {
            StageView::Terminated
        },
        StageView::Terminated => StageView::Terminated,
    }
}

/// The action after an awaited event.
pub open spec fn next_action(session: SessionView, event: EventView) -> ActionView
    recommends
        awaits(session.stage, event),
{
    match session.stage {
        StageView::PromptCity => ActionView::Ask(country_question()),
        StageView::PromptCountry { city } => ActionView::Fetch(
            request_url_of(city, trimmed(event->Line_0), session.api_key),
        ),
        StageView::Fetch => match event {
            EventView::Fetched(report) => showing_of(report),
            _ => ActionView::Complain(complaint_of(event->Failed_0)),
        },
        StageView::Display => ActionView::Ask(continue_question()),
        StageView::PromptContinue => if trimmed(event->Line_0) == "yes"@ {
            ActionView::Ask(city_question())
        } else {
            ActionView::Farewell(farewell_of())
        },
        StageView::Terminated => ActionView::Farewell(farewell_of()),
    }
}

/// One step of the conversation: after an awaited event the next stage and
/// the action that leads on; after any other event the conversation as it
/// was, and no action.
pub open spec fn step_of(session: SessionView, event: EventView) -> (
    SessionView,
    Option<ActionView>,
) {
    if awaits(session.stage, event) {
        (
            SessionView { stage: next_stage(session.stage, event), api_key: session.api_key },
            Some(next_action(session, event)),
        )
    } else {
        (session, None)
    }
}

/// The greeting.
pub fn welcome() -> (greeting: Styled)
    ensures
        greeting@ == welcome_of(),
{
    Styled { text: String::from_str("Welcome to the Weather Station!"), tint: Tint::BrightYellow }
}

fn ask_city() -> (action: Action)
    ensures
        action@ == ActionView::Ask(city_question()),
{
    Action::Ask(
        Styled {
            text: String::from_str("Please enter the name of the city:"),
            tint: Tint::BrightGreen,
        },
    )
}

fn ask_country() -> (action: Action)
    ensures
        action@ == ActionView::Ask(country_question()),
{
    Action::Ask(
        Styled {
            text: String::from_str("Please enter the country code(e.g. US for United States):"),
            tint: Tint::BrightGreen,
        },
    )
}

fn ask_continue() -> (action: Action)
    ensures
        action@ == ActionView::Ask(continue_question()),
{
    Action::Ask(
        Styled {
            text: String::from_str("Do you want to see the weather for another city?(yes/no)"),
            tint: Tint::Plain,
        },
    )
}

fn farewell() -> (action: Action)
    ensures
        action@ == ActionView::Farewell(farewell_of()),
{
    Action::Farewell(
        Styled { text: String::from_str("Thank you for using our service!"), tint: Tint::Plain },
    )
}

fn complain(detail: &str) -> (action: Action)
    ensures
        action@ == ActionView::Complain(complaint_of(detail@)),
{
    let mut complaint: String = String::from_str("Error: ");
    complaint.append(detail);
    Action::Complain(complaint)
}

/// What is done with a report that has arrived.
pub fn showing(report: &WeatherReport) -> (action: Action)
    ensures
        action@ == showing_of(report@),
{
    match display_weather_info(report) {
        Ok(shown) => Action::Show(shown),
        Err(error) => complain(error.message()),
    }
}

impl Session {
    /// A conversation that begins: the city is the first thing to ask for.
    pub fn start(api_key: String) -> (begun: (Session, Action))
        ensures
            begun.0@ == (SessionView { stage: StageView::PromptCity, api_key: api_key@ }),
            begun.1@ == ActionView::Ask(city_question()),
    {
        (Session { stage: Stage::PromptCity, api_key }, ask_city())
    }

    /// Whether the conversation is over.
    pub fn is_terminated(&self) -> (over: bool)
        ensures
            over == (self@.stage is Terminated),
    {
        match self.stage {
            Stage::Terminated => true,
            _ => false,
        }
    }

    /// One step: the conversation after the event, and what to do next. An
    /// event that the stage does not await changes nothing and asks for
    /// nothing.
    pub fn step(self, event: Event) -> (next: (Session, Option<Action>))
        ensures
            (next.0@, action_view(next.1)) == step_of(self@, event@),
    {
        let Session { stage, api_key } = self;
        match (stage, event) {
            (Stage::PromptCity, Event::Line(line)) => {
                let city: String = String::from_str(trim(line.as_str()));
                (Session { stage: Stage::PromptCountry { city }, api_key }, Some(ask_country()))
            },
            (Stage::PromptCountry { city }, Event::Line(line)) => {
                let url: String = request_url(
                    city.as_str(),
                    trim(line.as_str()),
                    api_key.as_str(),
                );
                (Session { stage: Stage::Fetch, api_key }, Some(Action::Fetch(url)))
            },
            (Stage::Fetch, Event::Fetched(report)) => {
                let action: Action = showing(&report);
                (Session { stage: Stage::Display, api_key }, Some(action))
            },
            (Stage::Fetch, Event::Failed(detail)) => {
                let action: Action = complain(detail.as_str());
                (Session { stage: Stage::Display, api_key }, Some(action))
            },
            (Stage::Display, Event::Shown) => {
                (Session { stage: Stage::PromptContinue, api_key }, Some(ask_continue()))
            },
            (Stage::PromptContinue, Event::Line(line)) => {
                if same_text(trim(line.as_str()), "yes") {
                    (Session { stage: Stage::PromptCity, api_key }, Some(ask_city()))
                } else {
                    (Session { stage: Stage::Terminated, api_key }, Some(farewell()))
                }
            },
            (stage, _) => (Session { stage, api_key }, None),
        }
    }
}

/// The event can come of doing what the action says: a line of a question,
/// a report or a failure of a request, the showing of what was to be
/// printed. Nothing comes of the farewell.
pub open spec fn comes_of(action: ActionView, event: EventView) -> bool {
    match action {
        ActionView::Ask(_) => event is Line,
        ActionView::Fetch(_) => event is Fetched || event is Failed,
        ActionView::Show(_) | ActionView::Complain(_) => event is Shown,
        ActionView::Farewell(_) => false,
    }
}

/// The conversation never stalls: what a step asks for brings exactly the
/// events that the next stage awaits, and only the farewell leads to the
/// end.
pub proof fn lemma_action_brings_awaited_event(
    session: SessionView,
    event: EventView,
    following: EventView,
)
    requires
        awaits(session.stage, event),
    ensures
        step_of(session, event).1 is Some,
        comes_of(step_of(session, event).1->Some_0, following) <==> awaits(
            step_of(session, event).0.stage,
            following,
        ),
        step_of(session, event).0.stage is Terminated <==> step_of(
            session,
            event,
        ).1->Some_0 is Farewell,
{
}

/// After the question whether to go on, the answer "yes", with or without
/// white space around it, leads back to the question for the city; every
/// other answer ends the conversation with the farewell.
pub proof fn lemma_only_yes_goes_on(session: SessionView, answer: Seq<char>)
    requires
        session.stage is PromptContinue,
    ensures
        trimmed(answer) == "yes"@ ==> step_of(session, EventView::Line(answer)) == (
            SessionView { stage: StageView::PromptCity, api_key: session.api_key },
            Some(ActionView::Ask(city_question())),
        ),
        trimmed(answer) != "yes"@ ==> step_of(session, EventView::Line(answer)) == (
            SessionView { stage: StageView::Terminated, api_key: session.api_key },
            Some(ActionView::Farewell(farewell_of())),
        ),
{
}

/// A request that fails is complained about with its detail, and the
/// conversation goes on to the question whether to continue: a failure never
/// ends it.
pub proof fn lemma_failure_is_reported_and_survived(session: SessionView, detail: Seq<char>)
    requires
        session.stage is Fetch,
    ensures
        step_of(session, EventView::Failed(detail)) == (
            SessionView { stage: StageView::Display, api_key: session.api_key },
            Some(ActionView::Complain(complaint_of(detail))),
        ),
        step_of(step_of(session, EventView::Failed(detail)).0, EventView::Shown) == (
            SessionView { stage: StageView::PromptContinue, api_key: session.api_key },
            Some(ActionView::Ask(continue_question())),
        ),
{
}

/// The session after a whole round: city, country code, the outcome of the
/// request, its showing, and the answer to the question whether to go on.
pub open spec fn after_round(
    session: SessionView,
    city: Seq<char>,
    country_code: Seq<char>,
    outcome: EventView,
    answer: Seq<char>,
) -> SessionView {
    let asked = step_of(session, EventView::Line(city)).0;
    let requested = step_of(asked, EventView::Line(country_code)).0;
    let answered = step_of(requested, outcome).0;
    let shown = step_of(answered, EventView::Shown).0;
    step_of(shown, EventView::Line(answer)).0
}

/// Every round asks the service anew. At the question for the city, a city
/// and a country code lead to a request for exactly their address, whatever
/// went before; and a round that is answered with "yes" leaves the
/// conversation as it was before the round, so that nothing of its outcome is
/// kept for the next.
pub proof fn lemma_every_round_fetches_anew(
    session: SessionView,
    city: Seq<char>,
    country_code: Seq<char>,
    outcome: EventView,
    answer: Seq<char>,
)
    requires
        session.stage is PromptCity,
        outcome is Fetched || outcome is Failed,
        trimmed(answer) == "yes"@,
    ensures
        step_of(step_of(session, EventView::Line(city)).0, EventView::Line(country_code)) == (
            SessionView { stage: StageView::Fetch, api_key: session.api_key },
            Some(
                ActionView::Fetch(
                    request_url_of(trimmed(city), trimmed(country_code), session.api_key),
                ),
            ),
        ),
        after_round(session, city, country_code, outcome, answer) == session,
{
}

/// A conversation that is over stays over: no event leads out of it.
pub proof fn lemma_terminated_is_final(session: SessionView, event: EventView)
    requires
        session.stage is Terminated,
    ensures
        step_of(session, event) == (session, None::<ActionView>),
{
}

} // verus!

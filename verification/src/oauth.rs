//! Signing in to a remote tool server: stored credentials are refreshed where there are any,
//! and otherwise the user authorizes in a browser, which calls back on a local port.

use crate::decimal::{decimal_text, parse_port, port_value, write_port};
use crate::stream::texts;
use crate::template::{is_plain_template, plain_template, render_template, rendered};
use vstd::prelude::*;

verus! {

/// The name that this client introduces itself with.
pub open spec fn client_name() -> Seq<char> {
    "goose"@
}

/// Where the metadata of this client are published.
pub open spec fn client_metadata_url() -> Seq<char> {
    "https://goose-docs.ai/oauth/client-metadata.json"@
}

/// The variable that the template of the callback page may hold.
pub open spec fn page_variable() -> Seq<char> {
    "name"@
}

/// Whether a text may be the template of the callback page.
pub open spec fn is_page_template(template: Seq<char>) -> bool {
    is_plain_template(template, page_variable())
}

/// Tells whether a text may be the template of the callback page.
pub fn accepts_page_template(template: &str) -> (accepted: bool)
    ensures
        accepted == is_page_template(template@),
{
    plain_template(template, "name")
}

/// The page that a template gives for a server with this name.
pub open spec fn callback_page(template: Seq<char>, name: Seq<char>) -> Seq<char> {
    rendered(template, page_variable(), name)
}

/// The port to listen on for the callback: the one that is configured, or any free one where
/// none is or what is configured is no port.
pub fn callback_port(configured: Option<&str>) -> (port: u16)
    ensures
        port == match configured {
            Some(text) => match port_value(text@) {
                Some(port) => port,
                None => 0,
            },
            None => 0,
        },
{
    match configured {
        Some(text) => parse_port(text).unwrap_or(0),
        None => 0,
    }
}

/// Where the browser is sent back to.
pub open spec fn redirect_uri_to(port: u16) -> Seq<char> {
    "http://127.0.0.1:"@ + decimal_text(port as nat) + "/oauth_callback"@
}

/// Where the browser is sent back to, when this port is listened on.
pub fn redirect_uri(port: u16) -> (uri: String)
    ensures
        uri@ == redirect_uri_to(port),
{
    let mut uri: String = "http://127.0.0.1:".to_owned();
    uri.append(write_port(port).as_str());
    uri.append("/oauth_callback");
    uri
}

/// What the browser brings back.
pub struct CallbackParams {
    pub code: String,
    pub state: String,
}

/// The callback endpoint: a page for every caller, and a sender for the first.
pub struct CallbackEndpoint<T> {
    page: String,
    sender: Option<T>,
}

impl<T> CallbackEndpoint<T> {
    /// The page that every caller gets.
    pub closed spec fn page(self) -> Seq<char> {
        self.page@
    }

    /// The sender that the next caller gets.
    pub closed spec fn sender(self) -> Option<T> {
        self.sender
    }

    /// An endpoint with its page rendered.
    pub fn new(template: &str, name: &str, sender: T) -> (endpoint: CallbackEndpoint<T>)
        requires
            is_page_template(template@),
        ensures
            endpoint.page() == callback_page(template@, name@),
            endpoint.sender() == Some(sender),
    {
        proof {
            reveal_strlit("name");
            reveal_strlit("true");
            reveal_strlit("false");
            reveal_strlit("none");
            reveal_strlit("not");
            assert("name"@[1] != "none"@[1] && "name"@[0] != "true"@[0]);
        }
        CallbackEndpoint::with_page(render_template(template, "name", name), sender)
    }

    /// An endpoint with a page that is there already.
    pub fn with_page(page: String, sender: T) -> (endpoint: CallbackEndpoint<T>)
        ensures
            endpoint.page() == page@,
            endpoint.sender() == Some(sender),
    {
        CallbackEndpoint { page, sender: Some(sender) }
    }

    /// Answers a caller: gives the page, and the sender for what the caller brings, which only
    /// the first caller gets.
    pub fn respond(&mut self) -> (response: (String, Option<T>))
        ensures
            response.0@ == old(self).page(),
            response.1 == old(self).sender(),
            final(self).page() == old(self).page(),
            final(self).sender() is None,
    {
        (self.page.clone(), self.sender.take())
    }
}

/// What is stored of a new authorization beside its token.
pub struct Grant {
    pub client_id: String,
    pub scopes: Vec<String>,
    pub received_at: Option<u64>,
}

/// What is to be stored of a new authorization: no scopes where the server names none, and the
/// epoch where the clock is set before it.
pub fn new_grant(
    client_id: String,
    scopes: Option<Vec<String>>,
    since_epoch: Option<u64>,
) -> (grant: Grant)
    ensures
        grant.client_id@ == client_id@,
        texts(grant.scopes@) == match scopes {
            Some(scopes) => texts(scopes@),
            None => Seq::<Seq<char>>::empty(),
        },
        grant.received_at == Some(
            match since_epoch {
                Some(seconds) => seconds,
                None => 0,
            },
        ),
{
    let scopes = match scopes {
        Some(scopes) => scopes,
        None => Vec::new(),
    };
    assert(texts(Seq::<String>::empty()) =~= Seq::<Seq<char>>::empty());
    Grant { client_id, scopes, received_at: Some(since_epoch.unwrap_or(0)) }
}

/// The lines that ask the user to open the authorization page.
pub open spec fn prompt_lines(name: Seq<char>, url: Seq<char>) -> Seq<Seq<char>> {
    seq!["Open the following URL to authorize "@ + name + ":"@, "  "@ + url]
}

/// The lines that ask the user to open the authorization page by hand.
pub fn authorization_prompt(name: &str, url: &str) -> (lines: Vec<String>)
    ensures
        texts(lines@) == prompt_lines(name@, url@),
{
    let mut first: String = "Open the following URL to authorize ".to_owned();
    first.append(name);
    first.append(":");
    let mut second: String = "  ".to_owned();
    second.append(url);
    let mut lines: Vec<String> = Vec::new();
    lines.push(first);
    lines.push(second);
    assert(texts(lines@) =~= prompt_lines(name@, url@));
    lines
}

/// What has come of a step of the sign-in. A step that failed, where the sign-in cannot go on
/// without it, comes to [`SignInEvent::Failed`].
pub enum SignInEvent {
    /// The user asks to sign in.
    Started,
    /// There is a manager, which looks for credentials in the store.
    ManagerReady,
    /// Whether there were credentials in the store.
    StoreLoaded(bool),
    /// Whether the stored credentials were refreshed.
    Refreshed(bool),
    /// Whether the stored credentials were cleared.
    StoreCleared(bool),
    /// The port that is listened on for the callback.
    Listening(u16),
    /// There is a session for the authorization.
    SessionReady,
    /// The server has agreed to the authorization.
    AuthorizationStarted,
    /// The page on which the user authorizes.
    PageReady(String),
    /// Whether a browser was opened on that page.
    BrowserOpened(bool),
    /// The user was told the page.
    UserPrompted,
    /// What the browser has brought back.
    CallbackReceived(CallbackParams),
    /// The server has taken that.
    CallbackTaken,
    /// There are credentials.
    CredentialsReady,
    /// Whether the session has given up its manager.
    ManagerTaken(bool),
    /// The credentials are in the store.
    CredentialsSaved,
    /// A step has failed.
    Failed,
}

/// The next step of the sign-in.
pub enum SignInAction {
    /// Make a manager for the server, which looks for credentials in the store.
    MakeManager,
    /// Load the stored credentials.
    LoadStore,
    /// Refresh the stored credentials.
    Refresh,
    /// Clear the stored credentials.
    ClearStore,
    /// Listen for the callback on this port.
    Listen(u16),
    /// Make a session for the authorization.
    MakeSession,
    /// Ask the server for an authorization without particular scopes.
    StartAuthorization { redirect_uri: String, client_name: String, client_metadata_url: String },
    /// Ask for the page on which the user authorizes.
    GetPage,
    /// Open a browser on this page.
    OpenBrowser(String),
    /// Tell the user these lines.
    Prompt(Vec<String>),
    /// Wait for the callback.
    AwaitCallback,
    /// Hand the server what the browser has brought back.
    TakeCallback { code: String, state: String },
    /// Get the credentials.
    GetCredentials,
    /// Take the manager out of the session.
    TakeManager,
    /// Put the credentials into the store.
    SaveCredentials,
    /// Hand out the manager with the refreshed credentials.
    UseStored,
    /// Hand out the manager with the new credentials, which keeps them in the store.
    UseNew,
    /// Give up for want of a manager, with this message.
    GiveUp(String),
    /// Give up with the error of the step that failed.
    Fail,
}

/// The next step of the sign-in, as a mathematical value.
pub enum SignInActionView {
    MakeManager,
    LoadStore,
    Refresh,
    ClearStore,
    Listen(u16),
    MakeSession,
    StartAuthorization {
        redirect_uri: Seq<char>,
        client_name: Seq<char>,
        client_metadata_url: Seq<char>,
    },
    GetPage,
    OpenBrowser(Seq<char>),
    Prompt(Seq<Seq<char>>),
    AwaitCallback,
    TakeCallback { code: Seq<char>, state: Seq<char> },
    GetCredentials,
    TakeManager,
    SaveCredentials,
    UseStored,
    UseNew,
    GiveUp(Seq<char>),
    Fail,
}

impl View for SignInAction {
    type V = SignInActionView;

    open spec fn view(&self) -> SignInActionView {
        match self {
            SignInAction::MakeManager => SignInActionView::MakeManager,
            SignInAction::LoadStore => SignInActionView::LoadStore,
            SignInAction::Refresh => SignInActionView::Refresh,
            SignInAction::ClearStore => SignInActionView::ClearStore,
            SignInAction::Listen(port) => SignInActionView::Listen(*port),
            SignInAction::MakeSession => SignInActionView::MakeSession,
            SignInAction::StartAuthorization { redirect_uri, client_name, client_metadata_url }
                => SignInActionView::StartAuthorization {
                redirect_uri: redirect_uri@,
                client_name: client_name@,
                client_metadata_url: client_metadata_url@,
            },
            SignInAction::GetPage => SignInActionView::GetPage,
            SignInAction::OpenBrowser(url) => SignInActionView::OpenBrowser(url@),
            SignInAction::Prompt(lines) => SignInActionView::Prompt(texts(lines@)),
            SignInAction::AwaitCallback => SignInActionView::AwaitCallback,
            SignInAction::TakeCallback { code, state } => SignInActionView::TakeCallback {
                code: code@,
                state: state@,
            },
            SignInAction::GetCredentials => SignInActionView::GetCredentials,
            SignInAction::TakeManager => SignInActionView::TakeManager,
            SignInAction::SaveCredentials => SignInActionView::SaveCredentials,
            SignInAction::UseStored => SignInActionView::UseStored,
            SignInAction::UseNew => SignInActionView::UseNew,
            SignInAction::GiveUp(message) => SignInActionView::GiveUp(message@),
            SignInAction::Fail => SignInActionView::Fail,
        }
    }
}

/// What a sign-in keeps in mind.
pub struct SignInView {
    /// The name of the server, as the user knows it.
    pub name: Seq<char>,
    /// The port to listen on for the callback, and once it is listened on, that port.
    pub port: u16,
    /// The page on which the user authorizes.
    pub url: Seq<char>,
}

impl SignInView {
    /// What is kept in mind after a step.
    pub open spec fn after(self, event: SignInEvent) -> SignInView {
        match event {
            SignInEvent::Listening(port) => SignInView { port, ..self },
            SignInEvent::PageReady(url) => SignInView { url: url@, ..self },
            _ => self,
        }
    }

    /// The step that follows.
    pub open spec fn next(self, event: SignInEvent) -> SignInActionView {
        match event {
            SignInEvent::Started => SignInActionView::MakeManager,
            SignInEvent::ManagerReady => SignInActionView::LoadStore,
            SignInEvent::StoreLoaded(found) => if found {
                SignInActionView::Refresh
            } else {
                SignInActionView::Listen(self.port)
            },
            SignInEvent::Refreshed(refreshed) => if refreshed {
                SignInActionView::UseStored
            } else {
                SignInActionView::ClearStore
            },
            SignInEvent::StoreCleared(_) => SignInActionView::Listen(self.port),
            SignInEvent::Listening(_) => SignInActionView::MakeSession,
            SignInEvent::SessionReady => SignInActionView::StartAuthorization {
                redirect_uri: redirect_uri_to(self.port),
                client_name: client_name(),
                client_metadata_url: client_metadata_url(),
            },
            SignInEvent::AuthorizationStarted => SignInActionView::GetPage,
            SignInEvent::PageReady(url) => SignInActionView::OpenBrowser(url@),
            SignInEvent::BrowserOpened(opened) => if opened {
                SignInActionView::AwaitCallback
            } else {
                SignInActionView::Prompt(prompt_lines(self.name, self.url))
            },
            SignInEvent::UserPrompted => SignInActionView::AwaitCallback,
            SignInEvent::CallbackReceived(params) => SignInActionView::TakeCallback {
                code: params.code@,
                state: params.state@,
            },
            SignInEvent::CallbackTaken => SignInActionView::GetCredentials,
            SignInEvent::CredentialsReady => SignInActionView::TakeManager,
            SignInEvent::ManagerTaken(taken) => if taken {
                SignInActionView::SaveCredentials
            } else {
                SignInActionView::GiveUp("Failed to get authorization manager"@)
            },
            SignInEvent::CredentialsSaved => SignInActionView::UseNew,
            SignInEvent::Failed => SignInActionView::Fail,
        }
    }
}

/// A sign-in under way.
pub struct SignIn {
    name: String,
    port: u16,
    url: String,
}

impl View for SignIn {
    type V = SignInView;

    closed spec fn view(&self) -> SignInView {
        SignInView { name: self.name@, port: self.port, url: self.url@ }
    }
}

impl SignIn {
    /// A sign-in to the server with this name, with the callback on this port.
    pub fn new(name: &str, port: u16) -> (sign_in: SignIn)
        ensures
            sign_in@ == (SignInView { name: name@, port, url: Seq::empty() }),
    {
        SignIn { name: name.to_owned(), port, url: String::new() }
    }

    /// Decides the next step.
    pub fn next_action(&mut self, event: SignInEvent) -> (action: SignInAction)
        ensures
            action@ == old(self)@.next(event),
            final(self)@ == old(self)@.after(event),
    {
        match event {
            SignInEvent::Started => SignInAction::MakeManager,
            SignInEvent::ManagerReady => SignInAction::LoadStore,
            SignInEvent::StoreLoaded(found) => {
                if found {
                    SignInAction::Refresh
                } else {
                    SignInAction::Listen(self.port)
                }
            },
            SignInEvent::Refreshed(refreshed) => {
                if refreshed {
                    SignInAction::UseStored
                } else {
                    SignInAction::ClearStore
                }
            },
            SignInEvent::StoreCleared(_) => SignInAction::Listen(self.port),
            SignInEvent::Listening(port) => {
                self.port = port;
                SignInAction::MakeSession
            },
            SignInEvent::SessionReady => SignInAction::StartAuthorization {
                redirect_uri: redirect_uri(self.port),
                client_name: "goose".to_owned(),
                client_metadata_url: "https://goose-docs.ai/oauth/client-metadata.json".to_owned(),
            },
            SignInEvent::AuthorizationStarted => SignInAction::GetPage,
            SignInEvent::PageReady(url) => {
                self.url = url.clone();
                SignInAction::OpenBrowser(url)
            },
            SignInEvent::BrowserOpened(opened) => {
                if opened {
                    SignInAction::AwaitCallback
                } else {
                    SignInAction::Prompt(
                        authorization_prompt(self.name.as_str(), self.url.as_str()),
                    )
                }
            },
            SignInEvent::UserPrompted => SignInAction::AwaitCallback,
            SignInEvent::CallbackReceived(params) => SignInAction::TakeCallback {
                code: params.code,
                state: params.state,
            },
            SignInEvent::CallbackTaken => SignInAction::GetCredentials,
            SignInEvent::CredentialsReady => SignInAction::TakeManager,
            SignInEvent::ManagerTaken(taken) => {
                if taken {
                    SignInAction::SaveCredentials
                } else {
                    SignInAction::GiveUp("Failed to get authorization manager".to_owned())
                }
            },
            SignInEvent::CredentialsSaved => SignInAction::UseNew,
            SignInEvent::Failed => SignInAction::Fail,
        }
    }
}

/// Whether a step can come to this. Refreshing, clearing the store, opening a browser, telling
/// the user and taking the manager come to an outcome of their own where they fail; the last
/// steps come to nothing.
pub open spec fn can_come_to(action: SignInActionView, event: SignInEvent) -> bool {
    match action {
        SignInActionView::MakeManager => event is ManagerReady || event is Failed,
        SignInActionView::LoadStore => event is StoreLoaded || event is Failed,
        SignInActionView::Refresh => event is Refreshed,
        SignInActionView::ClearStore => event is StoreCleared,
        SignInActionView::Listen(_) => event is Listening || event is Failed,
        SignInActionView::MakeSession => event is SessionReady || event is Failed,
        SignInActionView::StartAuthorization { .. } => event is AuthorizationStarted
            || event is Failed,
        SignInActionView::GetPage => event is PageReady || event is Failed,
        SignInActionView::OpenBrowser(_) => event is BrowserOpened,
        SignInActionView::Prompt(_) => event is UserPrompted,
        SignInActionView::AwaitCallback => event is CallbackReceived || event is Failed,
        SignInActionView::TakeCallback { .. } => event is CallbackTaken || event is Failed,
        SignInActionView::GetCredentials => event is CredentialsReady || event is Failed,
        SignInActionView::TakeManager => event is ManagerTaken,
        SignInActionView::SaveCredentials => event is CredentialsSaved || event is Failed,
        _ => false,
    }
}

/// What a sign-in keeps in mind after a course of events.
pub open spec fn sign_in_after(start: SignInView, events: Seq<SignInEvent>) -> SignInView
    decreases events.len(),
{
    if events.len() == 0 {
        start
    } else {
        sign_in_after(start, events.drop_last()).after(events.last())
    }
}

/// The step that a course of events leads to.
pub open spec fn last_action(start: SignInView, events: Seq<SignInEvent>) -> SignInActionView {
    sign_in_after(start, events.drop_last()).next(events.last())
}

/// Whether a course of events is one of a sign-in: it starts, and each event is what the step
/// before came to.
pub open spec fn is_course(start: SignInView, events: Seq<SignInEvent>) -> bool
    decreases events.len(),
{
    if events.len() == 0 {
        false
    } else if events.len() == 1 {
        events[0] is Started
    } else {
        &&& is_course(start, events.drop_last())
        &&& can_come_to(last_action(start, events.drop_last()), events.last())
    }
}

/// How far a sign-in has come with a step.
pub open spec fn progress(action: SignInActionView) -> nat {
    match action {
        SignInActionView::MakeManager => 1,
        SignInActionView::LoadStore => 2,
        SignInActionView::Refresh => 3,
        SignInActionView::ClearStore => 4,
        SignInActionView::Listen(_) => 5,
        SignInActionView::MakeSession => 6,
        SignInActionView::StartAuthorization { .. } => 7,
        SignInActionView::GetPage => 8,
        SignInActionView::OpenBrowser(_) => 9,
        SignInActionView::Prompt(_) => 10,
        SignInActionView::AwaitCallback => 11,
        SignInActionView::TakeCallback { .. } => 12,
        SignInActionView::GetCredentials => 13,
        SignInActionView::TakeManager => 14,
        SignInActionView::SaveCredentials => 15,
        _ => 16,
    }
}

/// A sign-in always comes to an end: every step brings it further, and no course of events is
/// longer than there are steps.
pub proof fn lemma_sign_in_ends(start: SignInView, events: Seq<SignInEvent>)
    requires
        is_course(start, events),
    ensures
        events.len() <= progress(last_action(start, events)) <= 16,
    decreases events.len(),
{
    if events.len() > 1 {
        lemma_sign_in_ends(start, events.drop_last());
    }
}

/// Where stored credentials can be refreshed they are used, and the user is not asked: no port
/// is listened on and no browser is opened.
pub proof fn lemma_refreshed_credentials_need_no_user(start: SignInView, events: Seq<SignInEvent>)
    requires
        is_course(start, events),
        last_action(start, events) is UseStored,
    ensures
        events.len() == 4,
        events[0] is Started,
        events[1] is ManagerReady,
        events[2] == SignInEvent::StoreLoaded(true),
        events[3] == SignInEvent::Refreshed(true),
{
    reveal_with_fuel(is_course, 5);
    let third = events.drop_last();
    assert(events.last() == SignInEvent::Refreshed(true));
    assert(events.len() > 1);
    assert(last_action(start, third) is Refresh);
    assert(third.last() == SignInEvent::StoreLoaded(true));
    assert(third.len() > 1);
    let second = third.drop_last();
    assert(last_action(start, second) is LoadStore);
    assert(second.last() is ManagerReady);
    assert(second.len() > 1);
    let first = second.drop_last();
    assert(last_action(start, first) is MakeManager);
    assert(first.last() is Started);
    if first.len() > 1 {
        assert(can_come_to(last_action(start, first.drop_last()), first.last()));
    }
    assert(first.len() == 1);
}

/// Credentials that cannot be refreshed do not end a sign-in: whether or not they can be
/// cleared, the user is asked next.
pub proof fn lemma_failed_refresh_falls_back_to_the_user(sign_in: SignInView, cleared: bool)
    ensures
        sign_in.next(SignInEvent::Refreshed(false)) is ClearStore,
        sign_in.after(SignInEvent::Refreshed(false)).next(SignInEvent::StoreCleared(cleared))
            == SignInActionView::Listen(sign_in.port),
{
}

/// New credentials are handed out only after the browser has called back.
pub proof fn lemma_new_credentials_need_a_callback(start: SignInView, events: Seq<SignInEvent>)
    requires
        is_course(start, events),
        last_action(start, events) is UseNew,
    ensures
        exists|i: int| 0 <= i < events.len() && (#[trigger] events[i]) is CallbackReceived,
{
    lemma_callback_comes_first(start, events);
}

/// Whether a step takes up what the browser has brought back, or follows one that does.
spec fn follows_callback(action: SignInActionView) -> bool {
    ||| action is TakeCallback
    ||| action is GetCredentials
    ||| action is TakeManager
    ||| action is SaveCredentials
    ||| action is UseNew
}

/// The steps that follow a callback come after one.
proof fn lemma_callback_comes_first(start: SignInView, events: Seq<SignInEvent>)
    requires
        is_course(start, events),
        follows_callback(last_action(start, events)),
    ensures
        exists|i: int| 0 <= i < events.len() && (#[trigger] events[i]) is CallbackReceived,
    decreases events.len(),
{
    let last = events.len() - 1;
    assert(events[last] == events.last());
    if !(events[last] is CallbackReceived) {
        assert(events.len() > 1);
        let front = events.drop_last();
        lemma_callback_comes_first(start, front);
        let i = choose|i: int| 0 <= i < front.len() && (#[trigger] front[i]) is CallbackReceived;
        assert(events[i] == front[i]);
    }
}

/// The browser is sent back to the port that is listened on, whichever port was asked for.
pub proof fn lemma_redirect_goes_to_the_listening_port(sign_in: SignInView, port: u16)
    ensures
        sign_in.after(SignInEvent::Listening(port)).next(SignInEvent::SessionReady) == (
        SignInActionView::StartAuthorization {
            redirect_uri: redirect_uri_to(port),
            client_name: client_name(),
            client_metadata_url: client_metadata_url(),
        }),
{
}

} // verus!

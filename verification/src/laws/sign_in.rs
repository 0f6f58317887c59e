//! How a sign-in goes.

use crate::decimal::{parse_port, write_port};
use crate::laws::streams::hold;
use crate::oauth::{
    authorization_prompt, callback_port, can_come_to, is_course, last_action, new_grant, progress,
    redirect_uri, sign_in_after, CallbackEndpoint, CallbackParams, Grant, SignIn, SignInAction,
    SignInActionView, SignInEvent, SignInView,
};
use crate::stream::texts;
use vstd::prelude::*;

verus! {

/// In every course of events, whenever the step is to listen, with or without stored credentials,
/// the port to listen on is the one that the sign-in was started with.
pub proof fn lemma_configured_port_is_listened_on(start: SignInView, events: Seq<SignInEvent>)
    requires
        is_course(start, events),
    ensures
        last_action(start, events) matches SignInActionView::Listen(port) ==> port == start.port,
{
    if last_action(start, events) is Listen {
        if events.len() > 1 {
            lemma_port_waits_for_the_listener(start, events.drop_last());
        }
    }
}

/// Until a port is listened on, the sign-in keeps the port that it was started with.
proof fn lemma_port_waits_for_the_listener(start: SignInView, events: Seq<SignInEvent>)
    requires
        is_course(start, events),
        progress(last_action(start, events)) <= 5,
    ensures
        sign_in_after(start, events).port == start.port,
    decreases events.len(),
{
    reveal_with_fuel(sign_in_after, 2);
    if events.len() > 1 {
        assert(can_come_to(last_action(start, events.drop_last()), events.last()));
        lemma_port_waits_for_the_listener(start, events.drop_last());
    }
}

/// A sign-in starts with the name and the port that it is given.
pub proof fn lemma_sign_in_starts_as_asked(name: &str, port: u16, sign_in: SignIn)
    requires
        call_ensures(SignIn::new, (name, port), sign_in),
    ensures
        sign_in@.name == name@,
        sign_in@.port == port,
        sign_in@.url == Seq::<char>::empty(),
{
}

/// A sign-in never forgets whom it is for. It takes over the port that is listened on and the page
/// to authorize on, and no other event changes these.
pub proof fn lemma_sign_in_remembers(
    sign_in: &mut SignIn,
    event: SignInEvent,
    action: SignInAction,
)
    requires
        call_ensures(SignIn::next_action, (sign_in, event), action),
    ensures
        final(sign_in)@.name == old(sign_in)@.name,
        event matches SignInEvent::Listening(port) ==> final(sign_in)@.port == port,
        !(event is Listening) ==> final(sign_in)@.port == old(sign_in)@.port,
        event matches SignInEvent::PageReady(url) ==> final(sign_in)@.url == url@,
        !(event is PageReady) ==> final(sign_in)@.url == old(sign_in)@.url,
{
}

/// A sign-in first makes a manager and loads the stored credentials. It refreshes those that were
/// found and uses them where that worked. Where it did not, it clears them, and whether or not
/// that worked, as well as where none were found, it listens on the port that it keeps in mind.
pub proof fn lemma_stored_credentials_come_first(
    sign_in: &mut SignIn,
    event: SignInEvent,
    action: SignInAction,
)
    requires
        call_ensures(SignIn::next_action, (sign_in, event), action),
    ensures
        event is Started ==> action is MakeManager,
        event is ManagerReady ==> action is LoadStore,
        event == SignInEvent::StoreLoaded(true) ==> action is Refresh,
        event == SignInEvent::StoreLoaded(false) ==> action == SignInAction::Listen(
            old(sign_in)@.port,
        ),
        event == SignInEvent::Refreshed(true) ==> action is UseStored,
        event == SignInEvent::Refreshed(false) ==> action is ClearStore,
        event is StoreCleared ==> action == SignInAction::Listen(old(sign_in)@.port),
{
    assert(event is StoreCleared || event == SignInEvent::StoreLoaded(false) ==> action@
        == SignInActionView::Listen(old(sign_in)@.port));
}

/// The configured port is the one that is listened on where there are no stored credentials.
pub proof fn lemma_first_sign_in_listens_on_its_port(
    name: &str,
    port: u16,
    started: SignIn,
    sign_in: &mut SignIn,
    action: SignInAction,
)
    requires
        call_ensures(SignIn::new, (name, port), started),
        old(sign_in)@ == started@,
        call_ensures(
            SignIn::next_action,
            (sign_in, SignInEvent::StoreLoaded(false)),
            action,
        ),
    ensures
        action == SignInAction::Listen(port),
{
    lemma_stored_credentials_come_first(sign_in, SignInEvent::StoreLoaded(false), action);
}

/// Once a port is listened on, a session is made, and the server is asked for an authorization
/// that leads back to that port, under the name and the metadata of this client.
pub proof fn lemma_authorization_leads_back(
    sign_in: &mut SignIn,
    event: SignInEvent,
    action: SignInAction,
    uri: String,
)
    requires
        call_ensures(SignIn::next_action, (sign_in, event), action),
        call_ensures(redirect_uri, (old(sign_in)@.port,), uri),
    ensures
        event is Listening ==> action is MakeSession,
        event is SessionReady ==> {
            &&& action is StartAuthorization
            &&& action->redirect_uri@ == uri@
            &&& action->client_name@ == "goose"@
            &&& action->client_metadata_url@
                == "https://goose-docs.ai/oauth/client-metadata.json"@
        },
{
}

/// The user authorizes on the page that the server names: in a browser where one can be opened,
/// and otherwise after being told the page.
pub proof fn lemma_user_is_shown_the_page(
    sign_in: &mut SignIn,
    event: SignInEvent,
    action: SignInAction,
)
    requires
        call_ensures(SignIn::next_action, (sign_in, event), action),
    ensures
        event is AuthorizationStarted ==> action is GetPage,
        event matches SignInEvent::PageReady(url) ==> {
            &&& action is OpenBrowser
            &&& action->OpenBrowser_0@ == url@
        },
        event == SignInEvent::BrowserOpened(true) ==> action is AwaitCallback,
        event == SignInEvent::BrowserOpened(false) ==> {
            &&& action is Prompt
            &&& hold(
                action->Prompt_0@,
                seq![
                    "Open the following URL to authorize "@ + old(sign_in)@.name + ":"@,
                    "  "@ + old(sign_in)@.url,
                ],
            )
        },
        event is UserPrompted ==> action is AwaitCallback,
{
    if event == SignInEvent::BrowserOpened(false) {
        let lines = action->Prompt_0@;
        assert(action@ == SignInActionView::Prompt(texts(lines)));
        assert(texts(lines).len() == lines.len());
        assert(texts(lines)[0] == lines[0]@);
        assert(texts(lines)[1] == lines[1]@);
    }
}

/// What the browser brings back is handed to the server as it is. Then the credentials are taken,
/// with their manager, and put into the store before they are used; without a manager the sign-in
/// gives up, and a step that failed fails it.
pub proof fn lemma_callback_leads_to_credentials(
    sign_in: &mut SignIn,
    event: SignInEvent,
    action: SignInAction,
)
    requires
        call_ensures(SignIn::next_action, (sign_in, event), action),
    ensures
        event matches SignInEvent::CallbackReceived(params) ==> {
            &&& action is TakeCallback
            &&& action->code@ == params.code@
            &&& action->state@ == params.state@
        },
        event is CallbackTaken ==> action is GetCredentials,
        event is CredentialsReady ==> action is TakeManager,
        event == SignInEvent::ManagerTaken(true) ==> action is SaveCredentials,
        event == SignInEvent::ManagerTaken(false) ==> {
            &&& action is GiveUp
            &&& action->GiveUp_0@ == "Failed to get authorization manager"@
        },
        event is CredentialsSaved <==> action is UseNew,
        event is Failed <==> action is Fail,
{
}

/// The port of the callback is the one that is configured, as it reads, and any free one where
/// nothing is configured or it is no port.
pub proof fn lemma_callback_port_is_the_configured_one(
    text: &str,
    port: u16,
    read: Option<u16>,
    unconfigured: u16,
)
    requires
        call_ensures(callback_port, (Some(text),), port),
        call_ensures(parse_port, (text,), read),
        call_ensures(callback_port, (None::<&str>,), unconfigured),
    ensures
        read matches Some(value) ==> port == value,
        read is None ==> port == 0,
        unconfigured == 0,
{
}

/// The browser is sent back to the callback path of the local machine, on the port given.
pub proof fn lemma_redirect_names_the_port(port: u16, uri: String, digits: String)
    requires
        call_ensures(redirect_uri, (port,), uri),
        call_ensures(write_port, (port,), digits),
    ensures
        uri@ == "http://127.0.0.1:"@ + digits@ + "/oauth_callback"@,
{
}

/// Different ports lead back to different places.
pub proof fn lemma_redirects_are_told_apart(port: u16, uri: String, other: u16, elsewhere: String)
    requires
        call_ensures(redirect_uri, (port,), uri),
        call_ensures(redirect_uri, (other,), elsewhere),
        port != other,
    ensures
        uri@ != elsewhere@,
{
    let head = "http://127.0.0.1:"@;
    let tail = "/oauth_callback"@;
    if uri@ == elsewhere@ {
        let digits = uri@.subrange(head.len() as int, uri@.len() - tail.len());
        assert(digits =~= crate::decimal::decimal_text(port as nat));
        assert(digits =~= crate::decimal::decimal_text(other as nat));
        crate::decimal::lemma_port_round_trip(port);
        crate::decimal::lemma_port_round_trip(other);
    }
}

/// The prompt is two lines: one that names the server, and one that gives the page.
pub proof fn lemma_prompt_names_server_and_page(name: &str, url: &str, lines: Vec<String>)
    requires
        call_ensures(authorization_prompt, (name, url), lines),
    ensures
        hold(
            lines@,
            seq!["Open the following URL to authorize "@ + name@ + ":"@, "  "@ + url@],
        ),
{
    assert(texts(lines@).len() == lines@.len());
    assert(texts(lines@)[0] == lines@[0]@);
    assert(texts(lines@)[1] == lines@[1]@);
}

/// What is stored of an authorization is what was granted: the client, the scopes that the server
/// names, or none, and the time, or the epoch where the clock is set before it.
pub proof fn lemma_grant_is_what_was_granted(
    client_id: String,
    scopes: Option<Vec<String>>,
    since_epoch: Option<u64>,
    grant: Grant,
)
    requires
        call_ensures(new_grant, (client_id, scopes, since_epoch), grant),
    ensures
        grant.client_id@ == client_id@,
        scopes is None ==> grant.scopes@.len() == 0,
        scopes is Some ==> {
            &&& grant.scopes@.len() == scopes->0@.len()
            &&& forall|i: int|
                0 <= i < grant.scopes@.len() ==> (#[trigger] grant.scopes@[i])@ == scopes->0@[i]@
        },
        since_epoch is Some ==> grant.received_at == since_epoch,
        since_epoch is None ==> grant.received_at == Some(0u64),
{
    assert(texts(grant.scopes@).len() == grant.scopes@.len());
    if let Some(scopes) = scopes {
        assert(texts(scopes@).len() == scopes@.len());
        assert forall|i: int| 0 <= i < grant.scopes@.len() implies (#[trigger] grant.scopes@[i])@
            == scopes@[i]@ by {
            assert(texts(grant.scopes@)[i] == texts(scopes@)[i]);
        }
    }
}

/// Every caller of the callback endpoint gets its page, and only the first gets the sender: of two
/// calls one after the other, the second gets none.
pub proof fn lemma_first_caller_gets_the_sender<T>(
    page: String,
    sender: T,
    endpoint: CallbackEndpoint<T>,
    first: &mut CallbackEndpoint<T>,
    response: (String, Option<T>),
    second: &mut CallbackEndpoint<T>,
    again: (String, Option<T>),
)
    requires
        call_ensures(CallbackEndpoint::<T>::with_page, (page, sender), endpoint),
        *old(first) == endpoint,
        call_ensures(CallbackEndpoint::<T>::respond, (first,), response),
        *old(second) == *final(first),
        call_ensures(CallbackEndpoint::<T>::respond, (second,), again),
    ensures
        response.0@ == page@,
        response.1 == Some(sender),
        again.0@ == page@,
        again.1 is None,
{
}

} // verus!

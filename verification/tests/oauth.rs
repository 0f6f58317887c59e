use codev::decimal::{parse_port, write_port};
use codev::oauth::{
    accepts_page_template, authorization_prompt, callback_port, new_grant, redirect_uri,
    CallbackEndpoint, CallbackParams, SignIn, SignInAction, SignInEvent,
};
use codev::template::plain_template;

#[test]
fn port_is_decimal_and_fits() {
    assert_eq!(parse_port("8080"), Some(8080));
    assert_eq!(parse_port("+80"), Some(80));
    assert_eq!(parse_port("0"), Some(0));
    assert_eq!(parse_port("00000000065535"), Some(65535));
    for bad in ["", "+", "-1", "++1", "65536", "99999999999999999999", " 80", "8o", "8_0", "٣"] {
        assert_eq!(parse_port(bad), None);
        assert_eq!(bad.parse::<u16>().ok(), None);
    }
}

#[test]
fn port_round_trips() {
    for port in [0u16, 9, 10, 99, 100, 1234, 60000, 65535] {
        assert_eq!(write_port(port), port.to_string());
        assert_eq!(parse_port(&write_port(port)), Some(port));
    }
}

#[test]
fn callback_port_defaults_to_any() {
    assert_eq!(callback_port(None), 0);
    assert_eq!(callback_port(Some("http")), 0);
    assert_eq!(callback_port(Some("4711")), 4711);
}

#[test]
fn redirect_goes_to_the_local_port() {
    assert_eq!(redirect_uri(4711), "http://127.0.0.1:4711/oauth_callback");
}

#[test]
fn only_the_first_callback_is_delivered() {
    let mut endpoint = CallbackEndpoint::new("<p>{{ name }}</p>", "files", 7);
    let (page, sender) = endpoint.respond();
    assert_eq!(page, "<p>files</p>");
    assert_eq!(sender, Some(7));
    let (page, sender) = endpoint.respond();
    assert_eq!(page, "<p>files</p>");
    assert_eq!(sender, None);
}

fn page(template: &str, name: &str) -> String {
    assert!(accepts_page_template(template));
    CallbackEndpoint::new(template, name, ()).respond().0
}

#[test]
fn placeholders_are_replaced() {
    assert_eq!(page("", "files"), "");
    assert_eq!(page("{{name}}", "files"), "files");
    assert_eq!(page("{{ name }}", ""), "");
    assert_eq!(page("a{{ \t\r\n\u{c}name \n}}b{{name }}c", "é"), "aébéc");
    assert_eq!(page("{{ name }}{{ name }}}", "x"), "xx}");
    assert_eq!(page("{{ name }}{", "x"), "x{");
}

#[test]
fn value_is_taken_as_it_is() {
    assert_eq!(page("<p>{{ name }}</p>", "<b>&\"'"), "<p><b>&\"'</p>");
    assert_eq!(page("{{ name }}", "{{ name }}{% if %}{#"), "{{ name }}{% if %}{#");
    assert_eq!(page("{{ name }}", "x\n"), "x\n");
    let long = "0123456789".repeat(100);
    assert_eq!(page("{{ name }}", &long), long);
}

#[test]
fn text_around_placeholders_is_kept() {
    let style = "<style>\n p { color: red } }} %} #} { { \n</style> ünï";
    assert_eq!(page(style, "files"), style);
    assert_eq!(page("  {{ name }}  \n x", "y"), "  y  \n x");
}

#[test]
fn one_line_break_at_the_end_is_dropped() {
    assert_eq!(page("a\n", "x"), "a");
    assert_eq!(page("a\r\n", "x"), "a");
    assert_eq!(page("a\r", "x"), "a");
    assert_eq!(page("a\n\r", "x"), "a\n");
    assert_eq!(page("a\n\n", "x"), "a\n");
    assert_eq!(page("a\r\r", "x"), "a\r");
    assert_eq!(page("{{ name }}\n", "x"), "x");
    assert_eq!(page("\n", "x"), "");
}

#[test]
fn other_tags_are_not_accepted() {
    for template in [
        "{{ name",
        "{{ name }",
        "{{",
        "{{\n",
        "{{ }}",
        "{{{ name }}",
        "{{ names }}",
        "{{ name x }}",
        "{{ value }}",
        "{{- name }}",
        "{{ name -}}",
        "{{ name | upper }}",
        "{{ name[::-1] }}",
        "{{ \"abc\"[0:2:-1] }}",
        "{{ range(0, 1, -1) }}",
        "{{\u{a0}name }}",
        "{% if name %}x{% endif %}",
        "{# note #}",
        "a {#",
    ] {
        assert!(!accepts_page_template(template));
    }
}

#[test]
fn plain_template_knows_its_variable() {
    assert!(plain_template("{{ name }}", "name"));
    assert!(!plain_template("{{ name }}", "nam"));
    assert!(!plain_template("{{ name }}", "title"));
    assert!(plain_template("{{ title }}", "title"));
}

#[test]
fn given_page_is_served() {
    let mut endpoint = CallbackEndpoint::with_page("done".to_string(), ());
    assert_eq!(endpoint.respond(), ("done".to_string(), Some(())));
}

#[test]
fn grant_defaults() {
    let grant = new_grant("id".to_string(), None, None);
    assert_eq!(grant.client_id, "id");
    assert!(grant.scopes.is_empty());
    assert_eq!(grant.received_at, Some(0));
    let grant = new_grant("id".to_string(), Some(vec!["read".to_string()]), Some(12));
    assert_eq!(grant.scopes, vec!["read"]);
    assert_eq!(grant.received_at, Some(12));
}

#[test]
fn prompt_names_server_and_page() {
    assert_eq!(
        authorization_prompt("files", "https://a/b"),
        vec!["Open the following URL to authorize files:", "  https://a/b"]
    );
}

#[test]
fn refreshed_credentials_are_used() {
    let mut sign_in = SignIn::new("files", 0);
    assert!(matches!(sign_in.next_action(SignInEvent::Started), SignInAction::MakeManager));
    assert!(matches!(sign_in.next_action(SignInEvent::ManagerReady), SignInAction::LoadStore));
    assert!(matches!(
        sign_in.next_action(SignInEvent::StoreLoaded(true)),
        SignInAction::Refresh
    ));
    assert!(matches!(
        sign_in.next_action(SignInEvent::Refreshed(true)),
        SignInAction::UseStored
    ));
}

#[test]
fn failed_refresh_leads_to_the_browser() {
    for cleared in [true, false] {
        let mut sign_in = SignIn::new("files", 81);
        assert!(matches!(
            sign_in.next_action(SignInEvent::Refreshed(false)),
            SignInAction::ClearStore
        ));
        assert!(matches!(
            sign_in.next_action(SignInEvent::StoreCleared(cleared)),
            SignInAction::Listen(81)
        ));
    }
}

#[test]
fn browser_sign_in_runs_to_its_end() {
    let mut sign_in = SignIn::new("files", 0);
    assert!(matches!(
        sign_in.next_action(SignInEvent::StoreLoaded(false)),
        SignInAction::Listen(0)
    ));
    assert!(matches!(
        sign_in.next_action(SignInEvent::Listening(5000)),
        SignInAction::MakeSession
    ));
    match sign_in.next_action(SignInEvent::SessionReady) {
        SignInAction::StartAuthorization { redirect_uri, client_name, client_metadata_url } => {
            assert_eq!(redirect_uri, "http://127.0.0.1:5000/oauth_callback");
            assert_eq!(client_name, "goose");
            assert_eq!(
                client_metadata_url,
                "https://goose-docs.ai/oauth/client-metadata.json"
            );
        }
        _ => panic!("no authorization"),
    }
    assert!(matches!(
        sign_in.next_action(SignInEvent::AuthorizationStarted),
        SignInAction::GetPage
    ));
    let page = SignInEvent::PageReady("https://a".to_string());
    assert!(matches!(sign_in.next_action(page), SignInAction::OpenBrowser(url) if url == "https://a"));
    match sign_in.next_action(SignInEvent::BrowserOpened(false)) {
        SignInAction::Prompt(lines) => {
            assert_eq!(lines[0], "Open the following URL to authorize files:");
            assert_eq!(lines[1], "  https://a");
        }
        _ => panic!("no prompt"),
    }
    assert!(matches!(
        sign_in.next_action(SignInEvent::UserPrompted),
        SignInAction::AwaitCallback
    ));
    assert!(matches!(
        sign_in.next_action(SignInEvent::BrowserOpened(true)),
        SignInAction::AwaitCallback
    ));
    let params = CallbackParams { code: "c".to_string(), state: "s".to_string() };
    assert!(matches!(
        sign_in.next_action(SignInEvent::CallbackReceived(params)),
        SignInAction::TakeCallback { code, state } if code == "c" && state == "s"
    ));
    assert!(matches!(
        sign_in.next_action(SignInEvent::CallbackTaken),
        SignInAction::GetCredentials
    ));
    assert!(matches!(
        sign_in.next_action(SignInEvent::CredentialsReady),
        SignInAction::TakeManager
    ));
    assert!(matches!(
        sign_in.next_action(SignInEvent::ManagerTaken(true)),
        SignInAction::SaveCredentials
    ));
    assert!(matches!(
        sign_in.next_action(SignInEvent::CredentialsSaved),
        SignInAction::UseNew
    ));
}

#[test]
fn sign_in_gives_up() {
    let mut sign_in = SignIn::new("files", 0);
    assert!(matches!(sign_in.next_action(SignInEvent::Failed), SignInAction::Fail));
    assert!(matches!(
        sign_in.next_action(SignInEvent::ManagerTaken(false)),
        SignInAction::GiveUp(message) if message == "Failed to get authorization manager"
    ));
}

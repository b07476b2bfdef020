use serverbot::mp::{
    mp_deleted_text, mp_message_text, mp_request, mp_sent_summary, mp_sent_to_text,
    mp_settings_text, mp_settings_updated_text, route_mp_component, MpComponentRoute, MpRequest,
};

#[test]
fn mp_settings_requests() {
    assert_eq!(mp_request(&["settings"]), MpRequest::ShowSettings);
    assert_eq!(mp_request(&["SETTINGS", "Yes"]), MpRequest::SetEnabled(true));
    assert_eq!(mp_request(&["settings", "no"]), MpRequest::SetEnabled(false));
    assert_eq!(mp_request(&["settings", "1"]), MpRequest::SettingsUsage);
}

#[test]
fn mp_list_and_delete_requests() {
    assert_eq!(mp_request(&["sent"]), MpRequest::Sent(1));
    assert_eq!(mp_request(&["Sent", "3"]), MpRequest::Sent(3));
    assert_eq!(mp_request(&["sent", "-2"]), MpRequest::Sent(1));
    assert_eq!(mp_request(&["delete"]), MpRequest::DeleteUsage);
    assert_eq!(mp_request(&["DEL", "x"]), MpRequest::InvalidId);
    assert_eq!(mp_request(&["del", "12"]), MpRequest::Delete(12));
}

#[test]
fn mp_send_requests() {
    assert_eq!(mp_request(&[]), MpRequest::SendUsage);
    assert_eq!(mp_request(&["<@5>"]), MpRequest::SendUsage);
    assert_eq!(mp_request(&["<@5>", "salut", "toi"]), MpRequest::Send(Some(5), "salut toi".to_string()));
    assert_eq!(mp_request(&["bob", "salut"]), MpRequest::Send(None, "salut".to_string()));
}

#[test]
fn mp_texts() {
    assert_eq!(mp_message_text("Coucou", "bob#0001"), "Coucou\n\n- envoyé par bob#0001");
    assert_eq!(mp_settings_text(true), "Envoi de MP: `on`\nUtilise `+mp settings on/off`.");
    assert_eq!(mp_settings_updated_text(false), "Envoi de MP: `off`");
    assert_eq!(mp_deleted_text(4, false), "Entrée `#4` supprimée.");
    assert_eq!(
        mp_deleted_text(4, true),
        "Entrée `#4` marquée supprimée en base (Discord a refusé la suppression)."
    );
    assert_eq!(mp_sent_summary(25, 3, 3), "25 message(s) · Page 3/3");
    assert_eq!(mp_sent_to_text(9), "À <@9>.");
}

#[test]
fn mp_page_buttons() {
    assert_eq!(route_mp_component("mpsent:5:2", 5), MpComponentRoute::Page(2));
    assert_eq!(route_mp_component("mpsent:5:2", 6), MpComponentRoute::NotOwner);
    assert_eq!(route_mp_component("other", 5), MpComponentRoute::Unhandled);
}

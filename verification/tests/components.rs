use serverbot::components::{
    adv_component_id, menu_component_id, modal_value, mp_sent_custom_id, mp_sent_page,
    parse_mp_sent_custom_id, parse_owner_component_id, parse_owner_id, parse_user_id,
    requested_page, ModalComponent,
};

#[test]
fn owner_ids_round_trip() {
    let id = adv_component_id("adv:backup:list_modal", 1234);
    assert_eq!(id, "adv:backup:list_modal:1234");
    assert_eq!(parse_owner_component_id(&id), Some(("adv:backup:list_modal", 1234)));
    assert_eq!(parse_owner_id(&id), Some(("adv:backup:list_modal".to_string(), 1234)));
    assert_eq!(parse_owner_component_id("adv:giveaway:join"), None);
    assert_eq!(parse_owner_component_id("nocolon"), None);
    assert_eq!(parse_owner_id("a:b:-1"), None);
}

#[test]
fn menu_ids_round_trip() {
    let id = menu_component_id("ticket:settings", "toggle", 77);
    assert_eq!(id, "ticket:settings:toggle:77");
    assert_eq!(parse_owner_id(&id), Some(("ticket:settings:toggle".to_string(), 77)));
}

#[test]
fn page_buttons_round_trip() {
    let id = mp_sent_custom_id(5, -2);
    assert_eq!(id, "mpsent:5:-2");
    assert_eq!(parse_mp_sent_custom_id(&id), Some((5, -2)));
    assert_eq!(parse_mp_sent_custom_id("mpsent:5"), None);
    assert_eq!(parse_mp_sent_custom_id("other:5:1"), None);
    assert_eq!(parse_mp_sent_custom_id("mpsent:x:1"), None);
}

#[test]
fn pages_of_sent_messages() {
    let v = mp_sent_page(25, 5);
    assert_eq!(v.total_pages, 3);
    assert_eq!(v.page, 3);
    assert_eq!(v.offset, 20);
    assert_eq!(v.prev_page, 2);
    assert_eq!(v.next_page, 3);
    assert!(!v.prev_disabled);
    assert!(v.next_disabled);
    let empty = mp_sent_page(-4, 0);
    assert_eq!(empty.total_pages, 1);
    assert_eq!(empty.page, 1);
    assert_eq!(empty.offset, 0);
    assert!(empty.prev_disabled && empty.next_disabled);
}

#[test]
fn requested_pages() {
    assert_eq!(requested_page(Some("4")), 4);
    assert_eq!(requested_page(Some("0")), 1);
    assert_eq!(requested_page(Some("x")), 1);
    assert_eq!(requested_page(None), 1);
}

#[test]
fn user_mentions() {
    assert_eq!(parse_user_id("<@123>"), Some(123));
    assert_eq!(parse_user_id(" <@!456> "), Some(456));
    assert_eq!(parse_user_id("789"), Some(789));
    assert_eq!(parse_user_id("@someone"), None);
}

#[test]
fn form_values() {
    let rows = vec![
        vec![ModalComponent::Other, ModalComponent::InputText { custom_id: "title".to_string(), value: Some("Hello".to_string()) }],
        vec![ModalComponent::InputText { custom_id: "empty".to_string(), value: None }],
    ];
    assert_eq!(modal_value(&rows, "title"), Some("Hello".to_string()));
    assert_eq!(modal_value(&rows, "empty"), None);
    assert_eq!(modal_value(&rows, "missing"), None);
}

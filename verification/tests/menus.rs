use serverbot::backup::{Overwrite, OverwriteTarget};
use serverbot::menus::{
    channel_mention, form_number, menu_button_id, menu_route, sanitize_channel_name,
    sanitize_voice_name, status_label, suggestion_button_action, suggestion_channel,
    suggestion_error_text, suggestion_form_action, suggestion_form_content, suggestion_mirrors,
    suggestion_request, temp_room_category, temp_room_name, tempvoc_button_action,
    tempvoc_closes_room, tempvoc_form_is_configure, tempvoc_opens_room, ticket_button_action,
    ticket_channel_name, ticket_creation_overwrites, ticket_form_action, ticket_form_title,
    ticket_member_id, ticket_member_overwrites, ticket_member_text, toggle_label, MenuAction,
    MenuRoute, SuggestionError, SuggestionRequest,
};

fn is_clean(name: &str) -> bool {
    name.chars().all(|c| c.is_ascii_lowercase() || c.is_ascii_digit() || c == '-')
        && !name.contains("--")
        && !name.starts_with('-')
        && !name.ends_with('-')
}

#[test]
fn channel_names() {
    assert_eq!(sanitize_channel_name("Mon Super  Ticket!"), "mon-super-ticket");
    assert_eq!(sanitize_channel_name("__Hello__World__"), "hello-world");
    assert_eq!(sanitize_channel_name("a - _ b"), "a-b");
    assert_eq!(sanitize_channel_name("!!!"), "");
    assert_eq!(sanitize_channel_name("Été 2024"), "t-2024");
    assert_eq!(sanitize_voice_name("Jean Dupont"), "jean-dupont");
    for s in ["  x y ", "---", "A_B-C d", "é-é", "a!-b", "1 2 3"] {
        assert!(is_clean(&sanitize_channel_name(s)), "{}", s);
    }
}

#[test]
fn sanitized_names_keep_the_letters_and_digits_in_order() {
    for s in ["Mon Super  Ticket!", "A_b-C d9", "Été 2024", "--x--", "ÀBC"] {
        let r = sanitize_channel_name(s);
        let kept: String = r.chars().filter(|c| *c != '-').collect();
        let expected: String = s.to_lowercase().chars().filter(|c| c.is_ascii_alphanumeric()).collect();
        assert_eq!(kept, expected, "{}", s);
    }
}

#[test]
fn sanitizing_twice_changes_nothing() {
    for s in ["Mon Super  Ticket!", "ABC_def--GHI", "  Été 2024 ", "x", "", "a-b-c"] {
        let once = sanitize_channel_name(s);
        assert!(!once.chars().any(|c| c.is_ascii_uppercase()), "{}", once);
        assert_eq!(sanitize_channel_name(&once), once);
    }
    assert_eq!(sanitize_channel_name("already-clean-9"), "already-clean-9");
}

#[test]
fn ticket_names() {
    assert_eq!(ticket_channel_name("Besoin d'aide"), Some("ticket-besoin-daide".to_string()));
    assert_eq!(ticket_channel_name("???"), None);
    assert_eq!(ticket_form_title(Some("  titre ")), Some("titre".to_string()));
    assert_eq!(ticket_form_title(Some("   ")), None);
    assert_eq!(ticket_form_title(None), None);
}

#[test]
fn ticket_permissions() {
    assert_eq!(
        ticket_creation_overwrites(100, 7),
        vec![
            Overwrite { allow: 0, deny: 0x1CC00, target: OverwriteTarget::Role(100) },
            Overwrite { allow: 0x1CC40, deny: 0, target: OverwriteTarget::Member(7) },
        ]
    );
    let current = vec![
        Overwrite { allow: 1, deny: 0, target: OverwriteTarget::Member(7) },
        Overwrite { allow: 2, deny: 0, target: OverwriteTarget::Role(1) },
        Overwrite { allow: 3, deny: 0, target: OverwriteTarget::Member(8) },
    ];
    assert_eq!(
        ticket_member_overwrites(&current, 7, true),
        vec![
            Overwrite { allow: 2, deny: 0, target: OverwriteTarget::Role(1) },
            Overwrite { allow: 3, deny: 0, target: OverwriteTarget::Member(8) },
            Overwrite { allow: 0x1CC40, deny: 0, target: OverwriteTarget::Member(7) },
        ]
    );
    assert_eq!(
        ticket_member_overwrites(&current, 8, false),
        vec![
            Overwrite { allow: 1, deny: 0, target: OverwriteTarget::Member(7) },
            Overwrite { allow: 2, deny: 0, target: OverwriteTarget::Role(1) },
        ]
    );
    let twice = ticket_member_overwrites(&ticket_member_overwrites(&current, 7, true), 7, true);
    assert_eq!(twice.iter().filter(|o| o.target == OverwriteTarget::Member(7)).count(), 1);
}

#[test]
fn ticket_members() {
    assert_eq!(ticket_member_id(Some(5), &["<@9>"]), Some(5));
    assert_eq!(ticket_member_id(None, &["<@9>"]), Some(9));
    assert_eq!(ticket_member_id(None, &[]), None);
    assert_eq!(ticket_member_text(9, true), "<@9> a été ajouté au ticket.");
    assert_eq!(ticket_member_text(9, false), "<@9> a été retiré du ticket.");
}

#[test]
fn menu_routing() {
    let id = menu_button_id("ticket:settings", "create", 4);
    assert_eq!(id, "ticket:settings:create:4");
    assert_eq!(menu_route(&id, "ticket:settings", 4), MenuRoute::Owner("ticket:settings:create".to_string()));
    assert_eq!(menu_route(&id, "ticket:settings", 5), MenuRoute::NotOwner);
    assert_eq!(menu_route(&id, "tempvoc:settings", 4), MenuRoute::Unhandled);
    assert_eq!(menu_route("ticket:settings:x", "ticket:settings", 4), MenuRoute::Unhandled);
    assert_eq!(ticket_button_action("ticket:settings:refresh"), Some(MenuAction::Refresh));
    assert_eq!(ticket_button_action("ticket:settings:create"), Some(MenuAction::Create));
    assert_eq!(ticket_button_action("ticket:settings:submit"), None);
    assert_eq!(ticket_form_action("ticket:settings:configure"), Some(MenuAction::Configure));
    assert_eq!(ticket_form_action("ticket:settings:toggle"), None);
    assert_eq!(tempvoc_button_action("tempvoc:settings:toggle"), Some(MenuAction::Toggle));
    assert!(tempvoc_form_is_configure("tempvoc:settings:configure:x"));
    assert!(!tempvoc_form_is_configure("tempvoc:settings:refresh"));
    assert_eq!(suggestion_button_action("suggestion:settings:submit"), Some(MenuAction::Submit));
    assert_eq!(suggestion_form_action("suggestion:settings:create"), None);
}

#[test]
fn menu_labels_and_numbers() {
    assert_eq!(status_label(true), "Actif");
    assert_eq!(status_label(false), "Inactif");
    assert_eq!(toggle_label(true), "Désactiver");
    assert_eq!(toggle_label(false), "Activer");
    assert_eq!(channel_mention(-5), "<#-5>");
    assert_eq!(form_number(Some(" 42 ")), Some(42));
    assert_eq!(form_number(Some("x")), None);
    assert_eq!(form_number(None), None);
}

#[test]
fn temporary_voice() {
    assert_eq!(temp_room_name("Alice"), Some("🎤 alice".to_string()));
    assert_eq!(temp_room_name("***"), None);
    assert_eq!(temp_room_category(Some(3), Some(4)), Some(3));
    assert_eq!(temp_room_category(None, Some(4)), Some(4));
    assert!(tempvoc_opens_room(true, Some(10), Some(10)));
    assert!(!tempvoc_opens_room(false, Some(10), Some(10)));
    assert!(!tempvoc_opens_room(true, None, Some(10)));
    assert!(!tempvoc_opens_room(true, Some(10), Some(11)));
    assert!(tempvoc_closes_room(true, 0));
    assert!(!tempvoc_closes_room(true, 1));
    assert!(!tempvoc_closes_room(false, 0));
}

#[test]
fn suggestions() {
    assert_eq!(suggestion_request(&["Settings"]), SuggestionRequest::Settings);
    assert_eq!(suggestion_request(&[]), SuggestionRequest::Usage);
    assert_eq!(suggestion_request(&[" ", ""]), SuggestionRequest::Ignore);
    assert_eq!(suggestion_request(&["plus", "de", "salons"]), SuggestionRequest::Submit("plus de salons".to_string()));
    assert_eq!(suggestion_channel(false, Some(1)), Err(SuggestionError::Disabled));
    assert_eq!(suggestion_channel(true, None), Err(SuggestionError::NoChannel));
    assert_eq!(suggestion_channel(true, Some(1)), Ok(1));
    assert_eq!(suggestion_error_text(SuggestionError::Disabled), "Le système de suggestions est désactivé.");
    assert_eq!(suggestion_mirrors(&vec![1, 2, 1, 3], 1), vec![2, 3]);
    assert_eq!(suggestion_form_content(Some(" idée ")), Some(" idée ".to_string()));
    assert_eq!(suggestion_form_content(Some("  ")), None);
    assert_eq!(suggestion_form_content(None), None);
}

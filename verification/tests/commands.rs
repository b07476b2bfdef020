use serverbot::commands::admin::{ClearOwnersCommand, NewStickerCommand as AdminNewSticker, TicketCommand};
use serverbot::commands::administration::MpCommand;
use serverbot::commands::automation::{ButtonCommand, NewStickerCommand};
use serverbot::commands::BanCommand;

#[test]
fn named_commands() {
    let m = MpCommand.metadata();
    assert_eq!(m.name, Some("mp"));
    assert_eq!(m.key, None);
    assert_eq!(m.category, "administration");
    assert_eq!(m.examples, &["+mp", "+help mp"]);
    assert_eq!(m.default_aliases, &["dmsg"]);
    assert_eq!(m.allow_in_dm, Some(false));
    assert_eq!(m.default_permission, Some(8));
    let t = TicketCommand.metadata();
    assert_eq!(t.params, "settings");
    assert_eq!(t.default_aliases.len(), 0);
}

#[test]
fn keyed_commands() {
    let c = ClearOwnersCommand.metadata();
    assert_eq!(c.name, None);
    assert_eq!(c.key, Some("clear_owners"));
    assert_eq!(c.command, Some("clear owners"));
    assert_eq!(c.alias_source_key, Some("clear_owners"));
    assert_eq!(c.default_permission, Some(9));
    let b = BanCommand.metadata();
    assert_eq!(b.key, Some("ban"));
    assert_eq!(b.default_permission, None);
}

#[test]
fn same_name_in_two_categories() {
    assert_eq!(AdminNewSticker.metadata().key, Some("newsticker"));
    assert_eq!(NewStickerCommand.metadata().name, Some("newsticker"));
    assert_eq!(NewStickerCommand.metadata().category, "automation");
    assert_eq!(ButtonCommand.metadata().summary, None);
}

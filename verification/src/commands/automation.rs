//! The descriptions of the automation commands.
use vstd::prelude::*;

use super::{text_of, CommandMetadata};
use crate::text::str_views;

verus! {

/// The `autopublish` command.
pub struct AutopublishCommand;

impl AutopublishCommand {
    /// How the `autopublish` command presents itself in the help and what it
    /// needs to run.
    pub fn metadata(&self) -> (r: CommandMetadata)
        ensures
            text_of(r.name) == Some("autopublish"@),
            r.key is None,
            r.command is None,
            r.summary is None,
            r.alias_source_key is None,
            r.category@ == "automation"@,
            r.params@ == "aucun"@,
            r.description@ == "Affiche les salons ou la publication automatique des annonces est active."@,
            str_views(r.examples@) == seq!["+autopublish"@, "+help autopublish"@],
            str_views(r.default_aliases@) == seq!["apb"@],
            r.allow_in_dm == Some(false),
            r.default_permission == Some(5u8),
    {
        CommandMetadata {
            name: Some("autopublish"),
            key: None,
            command: None,
            summary: None,
            alias_source_key: None,
            category: "automation",
            params: "aucun",
            description: "Affiche les salons ou la publication automatique des annonces est active.",
            examples: &["+autopublish", "+help autopublish"],
            default_aliases: &["apb"],
            allow_in_dm: Some(false),
            default_permission: Some(5),
        }
    }
}

/// The `autopublishoff` command.
pub struct AutopublishoffCommand;

impl AutopublishoffCommand {
    /// How the `autopublishoff` command presents itself in the help and what it
    /// needs to run.
    pub fn metadata(&self) -> (r: CommandMetadata)
        ensures
            text_of(r.name) == Some("autopublishoff"@),
            r.key is None,
            r.command is None,
            r.summary is None,
            r.alias_source_key is None,
            r.category@ == "automation"@,
            r.params@ == "[#canal]"@,
            r.description@ == "Desactive la publication automatique des annonces sur un salon."@,
            str_views(r.examples@) == seq!["+autopublishoff"@, "+autopublishoff #annonces"@, "+help autopublishoff"@],
            str_views(r.default_aliases@) == seq!["apboff"@],
            r.allow_in_dm == Some(false),
            r.default_permission == Some(5u8),
    {
        CommandMetadata {
            name: Some("autopublishoff"),
            key: None,
            command: None,
            summary: None,
            alias_source_key: None,
            category: "automation",
            params: "[#canal]",
            description: "Desactive la publication automatique des annonces sur un salon.",
            examples: &["+autopublishoff", "+autopublishoff #annonces", "+help autopublishoff"],
            default_aliases: &["apboff"],
            allow_in_dm: Some(false),
            default_permission: Some(5),
        }
    }
}

/// The `autopublishon` command.
pub struct AutopublishonCommand;

impl AutopublishonCommand {
    /// How the `autopublishon` command presents itself in the help and what it
    /// needs to run.
    pub fn metadata(&self) -> (r: CommandMetadata)
        ensures
            text_of(r.name) == Some("autopublishon"@),
            r.key is None,
            r.command is None,
            r.summary is None,
            r.alias_source_key is None,
            r.category@ == "automation"@,
            r.params@ == "[#canal]"@,
            r.description@ == "Active la publication automatique des annonces sur un salon."@,
            str_views(r.examples@) == seq!["+autopublishon"@, "+autopublishon #annonces"@, "+help autopublishon"@],
            str_views(r.default_aliases@) == seq!["apbon"@],
            r.allow_in_dm == Some(false),
            r.default_permission == Some(5u8),
    {
        CommandMetadata {
            name: Some("autopublishon"),
            key: None,
            command: None,
            summary: None,
            alias_source_key: None,
            category: "automation",
            params: "[#canal]",
            description: "Active la publication automatique des annonces sur un salon.",
            examples: &["+autopublishon", "+autopublishon #annonces", "+help autopublishon"],
            default_aliases: &["apbon"],
            allow_in_dm: Some(false),
            default_permission: Some(5),
        }
    }
}

/// The `button` command.
pub struct ButtonCommand;

impl ButtonCommand {
    /// How the `button` command presents itself in the help and what it
    /// needs to run.
    pub fn metadata(&self) -> (r: CommandMetadata)
        ensures
            text_of(r.name) == Some("button"@),
            r.key is None,
            r.command is None,
            r.summary is None,
            r.alias_source_key is None,
            r.category@ == "automation"@,
            r.params@ == "<add/del> <lien>"@,
            r.description@ == "Ajoute ou supprime un bouton de decoration personnalise sur un message du bot."@,
            str_views(r.examples@) == seq!["+button add https://example.com"@, "+button del https://example.com"@],
            str_views(r.default_aliases@) == seq!["btn"@],
            r.allow_in_dm == Some(false),
            r.default_permission == Some(6u8),
    {
        CommandMetadata {
            name: Some("button"),
            key: None,
            command: None,
            summary: None,
            alias_source_key: None,
            category: "automation",
            params: "<add/del> <lien>",
            description: "Ajoute ou supprime un bouton de decoration personnalise sur un message du bot.",
            examples: &["+button add https://example.com", "+button del https://example.com"],
            default_aliases: &["btn"],
            allow_in_dm: Some(false),
            default_permission: Some(6),
        }
    }
}

/// The `newsticker` command.
pub struct NewStickerCommand;

impl NewStickerCommand {
    /// How the `newsticker` command presents itself in the help and what it
    /// needs to run.
    pub fn metadata(&self) -> (r: CommandMetadata)
        ensures
            text_of(r.name) == Some("newsticker"@),
            r.key is None,
            r.command is None,
            r.summary is None,
            r.alias_source_key is None,
            r.category@ == "automation"@,
            r.params@ == "[nom]"@,
            r.description@ == "Cree un nouveau sticker a partir d'un sticker ou fichier repondu."@,
            str_views(r.examples@) == seq!["+newsticker cool_pack"@],
            str_views(r.default_aliases@) == seq!["stcreate"@, "nst"@],
            r.allow_in_dm == Some(false),
            r.default_permission == Some(6u8),
    {
        CommandMetadata {
            name: Some("newsticker"),
            key: None,
            command: None,
            summary: None,
            alias_source_key: None,
            category: "automation",
            params: "[nom]",
            description: "Cree un nouveau sticker a partir d'un sticker ou fichier repondu.",
            examples: &["+newsticker cool_pack"],
            default_aliases: &["stcreate", "nst"],
            allow_in_dm: Some(false),
            default_permission: Some(6),
        }
    }
}

/// The `piconlyadd` command.
pub struct PiconlyaddCommand;

impl PiconlyaddCommand {
    /// How the `piconlyadd` command presents itself in the help and what it
    /// needs to run.
    pub fn metadata(&self) -> (r: CommandMetadata)
        ensures
            text_of(r.name) == Some("piconlyadd"@),
            r.key is None,
            r.command is None,
            r.summary is None,
            r.alias_source_key is None,
            r.category@ == "automation"@,
            r.params@ == "[#salon]"@,
            r.description@ == "Ajoute un salon selfie (photos uniquement)."@,
            str_views(r.examples@) == seq!["+piconlyadd"@, "+piconlyadd #selfie"@, "+help piconlyadd"@],
            str_views(r.default_aliases@) == seq!["selfieadd"@],
            r.allow_in_dm == Some(false),
            r.default_permission == Some(6u8),
    {
        CommandMetadata {
            name: Some("piconlyadd"),
            key: None,
            command: None,
            summary: None,
            alias_source_key: None,
            category: "automation",
            params: "[#salon]",
            description: "Ajoute un salon selfie (photos uniquement).",
            examples: &["+piconlyadd", "+piconlyadd #selfie", "+help piconlyadd"],
            default_aliases: &["selfieadd"],
            allow_in_dm: Some(false),
            default_permission: Some(6),
        }
    }
}

/// The `piconlydel` command.
pub struct PiconlydelCommand;

impl PiconlydelCommand {
    /// How the `piconlydel` command presents itself in the help and what it
    /// needs to run.
    pub fn metadata(&self) -> (r: CommandMetadata)
        ensures
            text_of(r.name) == Some("piconlydel"@),
            r.key is None,
            r.command is None,
            r.summary is None,
            r.alias_source_key is None,
            r.category@ == "automation"@,
            r.params@ == "[#salon]"@,
            r.description@ == "Retire un salon selfie (photos uniquement)."@,
            str_views(r.examples@) == seq!["+piconlydel"@, "+piconlydel #selfie"@, "+help piconlydel"@],
            str_views(r.default_aliases@) == seq!["selfiedel"@],
            r.allow_in_dm == Some(false),
            r.default_permission == Some(6u8),
    {
        CommandMetadata {
            name: Some("piconlydel"),
            key: None,
            command: None,
            summary: None,
            alias_source_key: None,
            category: "automation",
            params: "[#salon]",
            description: "Retire un salon selfie (photos uniquement).",
            examples: &["+piconlydel", "+piconlydel #selfie", "+help piconlydel"],
            default_aliases: &["selfiedel"],
            allow_in_dm: Some(false),
            default_permission: Some(6),
        }
    }
}

} // verus!

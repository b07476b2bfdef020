//! The descriptions of the commands that manage the bot itself: its
//! owners, its blacklist and its private messages.
use vstd::prelude::*;

use super::{text_of, CommandMetadata};
use crate::text::str_views;

verus! {

/// The `bl` command.
pub struct BlCommand;

impl BlCommand {
    /// How the `bl` command presents itself in the help and what it
    /// needs to run.
    pub fn metadata(&self) -> (r: CommandMetadata)
        ensures
            text_of(r.name) == Some("bl"@),
            r.key is None,
            r.command is None,
            text_of(r.summary) == Some("Gere la blacklist globale"@),
            r.alias_source_key is None,
            r.category@ == "administration"@,
            r.params@ == "[<@membre/ID> [raison...]]"@,
            r.description@ == "Affiche la blacklist ou ajoute un utilisateur a la blacklist globale du bot."@,
            str_views(r.examples@) == seq!["+bl"@, "+help bl"@],
            str_views(r.default_aliases@) == seq!["bls"@],
            r.allow_in_dm == Some(false),
            r.default_permission == Some(9u8),
    {
        CommandMetadata {
            name: Some("bl"),
            key: None,
            command: None,
            summary: Some("Gere la blacklist globale"),
            alias_source_key: None,
            category: "administration",
            params: "[<@membre/ID> [raison...]]",
            description: "Affiche la blacklist ou ajoute un utilisateur a la blacklist globale du bot.",
            examples: &["+bl", "+help bl"],
            default_aliases: &["bls"],
            allow_in_dm: Some(false),
            default_permission: Some(9),
        }
    }
}

/// The `mp` command.
pub struct MpCommand;

impl MpCommand {
    /// How the `mp` command presents itself in the help and what it
    /// needs to run.
    pub fn metadata(&self) -> (r: CommandMetadata)
        ensures
            text_of(r.name) == Some("mp"@),
            r.key is None,
            r.command is None,
            text_of(r.summary) == Some("Gere lenvoi de messages prives"@),
            r.alias_source_key is None,
            r.category@ == "administration"@,
            r.params@ == "settings [on|off] | sent [page] | delete <id> | <@membre/ID> <message...>"@,
            r.description@ == "Permet de configurer, envoyer, lister et supprimer des messages prives envoyes."@,
            str_views(r.examples@) == seq!["+mp"@, "+help mp"@],
            str_views(r.default_aliases@) == seq!["dmsg"@],
            r.allow_in_dm == Some(false),
            r.default_permission == Some(8u8),
    {
        CommandMetadata {
            name: Some("mp"),
            key: None,
            command: None,
            summary: Some("Gere lenvoi de messages prives"),
            alias_source_key: None,
            category: "administration",
            params: "settings [on|off] | sent [page] | delete <id> | <@membre/ID> <message...>",
            description: "Permet de configurer, envoyer, lister et supprimer des messages prives envoyes.",
            examples: &["+mp", "+help mp"],
            default_aliases: &["dmsg"],
            allow_in_dm: Some(false),
            default_permission: Some(8),
        }
    }
}

/// The `owner` command.
pub struct OwnerCommand;

impl OwnerCommand {
    /// How the `owner` command presents itself in the help and what it
    /// needs to run.
    pub fn metadata(&self) -> (r: CommandMetadata)
        ensures
            text_of(r.name) == Some("owner"@),
            r.key is None,
            r.command is None,
            r.summary is None,
            r.alias_source_key is None,
            r.category@ == "administration"@,
            r.params@ == "aucun"@,
            r.description@ == "Affiche l owner application et les owners ajoutes en base."@,
            str_views(r.examples@) == seq!["+owner"@, "+or"@, "+help owner"@],
            str_views(r.default_aliases@) == seq!["own"@],
            r.allow_in_dm == Some(false),
            r.default_permission == Some(9u8),
    {
        CommandMetadata {
            name: Some("owner"),
            key: None,
            command: None,
            summary: None,
            alias_source_key: None,
            category: "administration",
            params: "aucun",
            description: "Affiche l owner application et les owners ajoutes en base.",
            examples: &["+owner", "+or", "+help owner"],
            default_aliases: &["own"],
            allow_in_dm: Some(false),
            default_permission: Some(9),
        }
    }
}

/// The `unbl` command.
pub struct UnblCommand;

impl UnblCommand {
    /// How the `unbl` command presents itself in the help and what it
    /// needs to run.
    pub fn metadata(&self) -> (r: CommandMetadata)
        ensures
            text_of(r.name) == Some("unbl"@),
            r.key is None,
            r.command is None,
            text_of(r.summary) == Some("Retire un utilisateur blacklist"@),
            r.alias_source_key is None,
            r.category@ == "administration"@,
            r.params@ == "<@membre/ID>"@,
            r.description@ == "Retire un utilisateur de la blacklist globale du bot."@,
            str_views(r.examples@) == seq!["+unbl"@, "+ul"@, "+help unbl"@],
            str_views(r.default_aliases@) == seq!["unb"@],
            r.allow_in_dm == Some(false),
            r.default_permission == Some(9u8),
    {
        CommandMetadata {
            name: Some("unbl"),
            key: None,
            command: None,
            summary: Some("Retire un utilisateur blacklist"),
            alias_source_key: None,
            category: "administration",
            params: "<@membre/ID>",
            description: "Retire un utilisateur de la blacklist globale du bot.",
            examples: &["+unbl", "+ul", "+help unbl"],
            default_aliases: &["unb"],
            allow_in_dm: Some(false),
            default_permission: Some(9),
        }
    }
}

/// The `unowner` command.
pub struct UnownerCommand;

impl UnownerCommand {
    /// How the `unowner` command presents itself in the help and what it
    /// needs to run.
    pub fn metadata(&self) -> (r: CommandMetadata)
        ensures
            text_of(r.name) == Some("unowner"@),
            r.key is None,
            r.command is None,
            text_of(r.summary) == Some("Retire un owner du bot"@),
            r.alias_source_key is None,
            r.category@ == "administration"@,
            r.params@ == "<@membre/ID>"@,
            r.description@ == "Retire un utilisateur de la liste des owners supplementaires du bot."@,
            str_views(r.examples@) == seq!["+unowner"@, "+ur"@, "+help unowner"@],
            str_views(r.default_aliases@) == seq!["uow"@],
            r.allow_in_dm is None,
            r.default_permission == Some(9u8),
    {
        CommandMetadata {
            name: Some("unowner"),
            key: None,
            command: None,
            summary: Some("Retire un owner du bot"),
            alias_source_key: None,
            category: "administration",
            params: "<@membre/ID>",
            description: "Retire un utilisateur de la liste des owners supplementaires du bot.",
            examples: &["+unowner", "+ur", "+help unowner"],
            default_aliases: &["uow"],
            allow_in_dm: None,
            default_permission: Some(9),
        }
    }
}

} // verus!

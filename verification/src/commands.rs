//! What each command says of itself: its name, its category, its
//! parameters, its help texts, its examples, its default aliases and the
//! permission it needs. A command sets either a name, or a key with the
//! command as typed and the key its aliases come from.
use vstd::prelude::*;

use crate::text::str_views;

pub mod admin;
pub mod administration;
pub mod automation;

verus! {

/// The description of a command. The fields a command does not set are
/// `None`.
pub struct CommandMetadata {
    pub name: Option<&'static str>,
    pub key: Option<&'static str>,
    pub command: Option<&'static str>,
    pub category: &'static str,
    pub params: &'static str,
    pub summary: Option<&'static str>,
    pub description: &'static str,
    pub examples: &'static [&'static str],
    pub alias_source_key: Option<&'static str>,
    pub default_aliases: &'static [&'static str],
    pub allow_in_dm: Option<bool>,
    pub default_permission: Option<u8>,
}

/// The text of an optional field.
pub open spec fn text_of(o: Option<&str>) -> Option<Seq<char>> {
    match o {
        Some(s) => Some(s@),
        None => None,
    }
}

/// The `autobackup` command.
pub struct AutoBackupCommand;

impl AutoBackupCommand {
    /// How the `autobackup` command presents itself in the help and what it
    /// needs to run.
    pub fn metadata(&self) -> (r: CommandMetadata)
        ensures
            r.name is None,
            text_of(r.key) == Some("autobackup"@),
            text_of(r.command) == Some("autobackup"@),
            text_of(r.summary) == Some("Configure les backups automatiques"@),
            text_of(r.alias_source_key) == Some("autobackup"@),
            r.category@ == "admin"@,
            r.params@ == "<serveur/emoji> <jours>"@,
            r.description@ == "Definit l'intervalle en jours des backups automatiques."@,
            str_views(r.examples@) == seq!["+autobackup serveur 3"@, "+autobackup emoji 7"@],
            str_views(r.default_aliases@) == seq!["abkp"@],
            r.allow_in_dm is None,
            r.default_permission is None,
    {
        CommandMetadata {
            name: None,
            key: Some("autobackup"),
            command: Some("autobackup"),
            summary: Some("Configure les backups automatiques"),
            alias_source_key: Some("autobackup"),
            category: "admin",
            params: "<serveur/emoji> <jours>",
            description: "Definit l'intervalle en jours des backups automatiques.",
            examples: &["+autobackup serveur 3", "+autobackup emoji 7"],
            default_aliases: &["abkp"],
            allow_in_dm: None,
            default_permission: None,
        }
    }
}

/// The `autoconfiglog` command.
pub struct AutoconfiglogCommand;

impl AutoconfiglogCommand {
    /// How the `autoconfiglog` command presents itself in the help and what it
    /// needs to run.
    pub fn metadata(&self) -> (r: CommandMetadata)
        ensures
            r.name is None,
            text_of(r.key) == Some("autoconfiglog"@),
            text_of(r.command) == Some("autoconfiglog"@),
            text_of(r.summary) == Some("Cree tous les salons de logs"@),
            text_of(r.alias_source_key) == Some("autoconfiglog"@),
            r.category@ == "admin"@,
            r.params@ == "aucun"@,
            r.description@ == "Cree automatiquement les salons de logs et les configure."@,
            str_views(r.examples@) == seq!["+autoconfiglog"@],
            str_views(r.default_aliases@) == seq!["acl"@],
            r.allow_in_dm is None,
            r.default_permission is None,
    {
        CommandMetadata {
            name: None,
            key: Some("autoconfiglog"),
            command: Some("autoconfiglog"),
            summary: Some("Cree tous les salons de logs"),
            alias_source_key: Some("autoconfiglog"),
            category: "admin",
            params: "aucun",
            description: "Cree automatiquement les salons de logs et les configure.",
            examples: &["+autoconfiglog"],
            default_aliases: &["acl"],
            allow_in_dm: None,
            default_permission: None,
        }
    }
}

/// The `ban` command.
pub struct BanCommand;

impl BanCommand {
    /// How the `ban` command presents itself in the help and what it
    /// needs to run.
    pub fn metadata(&self) -> (r: CommandMetadata)
        ensures
            r.name is None,
            text_of(r.key) == Some("ban"@),
            text_of(r.command) == Some("ban"@),
            text_of(r.summary) == Some("Bannit un membre"@),
            text_of(r.alias_source_key) == Some("ban"@),
            r.category@ == "admin"@,
            r.params@ == "<@membre/ID[,..]> [raison]"@,
            r.description@ == "Ban un ou plusieurs membres."@,
            str_views(r.examples@) == seq!["+ban @User"@],
            str_views(r.default_aliases@) == seq!["b"@],
            r.allow_in_dm is None,
            r.default_permission is None,
    {
        CommandMetadata {
            name: None,
            key: Some("ban"),
            command: Some("ban"),
            summary: Some("Bannit un membre"),
            alias_source_key: Some("ban"),
            category: "admin",
            params: "<@membre/ID[,..]> [raison]",
            description: "Ban un ou plusieurs membres.",
            examples: &["+ban @User"],
            default_aliases: &["b"],
            allow_in_dm: None,
            default_permission: None,
        }
    }
}

/// The `boostembed` command.
pub struct BoostembedCommand;

impl BoostembedCommand {
    /// How the `boostembed` command presents itself in the help and what it
    /// needs to run.
    pub fn metadata(&self) -> (r: CommandMetadata)
        ensures
            r.name is None,
            text_of(r.key) == Some("boostembed"@),
            text_of(r.command) == Some("boostembed"@),
            text_of(r.summary) == Some("Active, coupe ou teste l embed boost"@),
            text_of(r.alias_source_key) == Some("boostembed"@),
            r.category@ == "admin"@,
            r.params@ == "<on|off|test>"@,
            r.description@ == "Controle l embed de boost et permet un test rapide."@,
            str_views(r.examples@) == seq!["+boostembed on"@, "+boostembed test"@],
            str_views(r.default_aliases@) == seq!["bembed"@],
            r.allow_in_dm is None,
            r.default_permission is None,
    {
        CommandMetadata {
            name: None,
            key: Some("boostembed"),
            command: Some("boostembed"),
            summary: Some("Active, coupe ou teste l embed boost"),
            alias_source_key: Some("boostembed"),
            category: "admin",
            params: "<on|off|test>",
            description: "Controle l embed de boost et permet un test rapide.",
            examples: &["+boostembed on", "+boostembed test"],
            default_aliases: &["bembed"],
            allow_in_dm: None,
            default_permission: None,
        }
    }
}

} // verus!

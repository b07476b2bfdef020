//! The descriptions of the server administration commands.
use vstd::prelude::*;

use super::{text_of, CommandMetadata};
use crate::text::str_views;

verus! {

/// The `addrole` command.
pub struct AddroleCommand;

impl AddroleCommand {
    /// How the `addrole` command presents itself in the help and what it
    /// needs to run.
    pub fn metadata(&self) -> (r: CommandMetadata)
        ensures
            r.name is None,
            text_of(r.key) == Some("addrole"@),
            text_of(r.command) == Some("addrole"@),
            text_of(r.summary) == Some("Ajoute un role"@),
            text_of(r.alias_source_key) == Some("addrole"@),
            r.category@ == "admin"@,
            r.params@ == "<@membre/ID[,..]> <@role/ID>"@,
            r.description@ == "Ajoute un role a un ou plusieurs membres."@,
            str_views(r.examples@) == seq!["+addrole @User @Membre"@],
            str_views(r.default_aliases@) == seq!["ar"@],
            r.allow_in_dm is None,
            r.default_permission == Some(8u8),
    {
        CommandMetadata {
            name: None,
            key: Some("addrole"),
            command: Some("addrole"),
            summary: Some("Ajoute un role"),
            alias_source_key: Some("addrole"),
            category: "admin",
            params: "<@membre/ID[,..]> <@role/ID>",
            description: "Ajoute un role a un ou plusieurs membres.",
            examples: &["+addrole @User @Membre"],
            default_aliases: &["ar"],
            allow_in_dm: None,
            default_permission: Some(8),
        }
    }
}

/// The `autoreact` command.
pub struct AutoReactCommand;

impl AutoReactCommand {
    /// How the `autoreact` command presents itself in the help and what it
    /// needs to run.
    pub fn metadata(&self) -> (r: CommandMetadata)
        ensures
            r.name is None,
            text_of(r.key) == Some("autoreact"@),
            text_of(r.command) == Some("autoreact"@),
            text_of(r.summary) == Some("Configure les reactions automatiques"@),
            text_of(r.alias_source_key) == Some("autoreact"@),
            r.category@ == "admin"@,
            r.params@ == "<add/del> <salon> <emoji> | list"@,
            r.description@ == "Ajoute, retire et liste les reactions automatiquement appliquees aux messages d'un salon."@,
            str_views(r.examples@) == seq!["+autoreact add #general 😀"@, "+autoreact list"@],
            str_views(r.default_aliases@) == seq!["ar"@, "reactauto"@],
            r.allow_in_dm is None,
            r.default_permission == Some(8u8),
    {
        CommandMetadata {
            name: None,
            key: Some("autoreact"),
            command: Some("autoreact"),
            summary: Some("Configure les reactions automatiques"),
            alias_source_key: Some("autoreact"),
            category: "admin",
            params: "<add/del> <salon> <emoji> | list",
            description: "Ajoute, retire et liste les reactions automatiquement appliquees aux messages d'un salon.",
            examples: &["+autoreact add #general 😀", "+autoreact list"],
            default_aliases: &["ar", "reactauto"],
            allow_in_dm: None,
            default_permission: Some(8),
        }
    }
}

/// The `backup` command.
pub struct BackupCommand;

impl BackupCommand {
    /// How the `backup` command presents itself in the help and what it
    /// needs to run.
    pub fn metadata(&self) -> (r: CommandMetadata)
        ensures
            r.name is None,
            text_of(r.key) == Some("backup"@),
            text_of(r.command) == Some("backup"@),
            text_of(r.summary) == Some("Gere les backups serveur et emojis"@),
            text_of(r.alias_source_key) == Some("backup"@),
            r.category@ == "admin"@,
            r.params@ == "<serveur/emoji> <nom> | list/delete/load"@,
            r.description@ == "Cree, liste, supprime et recharge des backups serveur ou emojis."@,
            str_views(r.examples@) == seq!["+backup serveur prod_1"@, "+backup list serveur"@, "+backup load emoji nightly"@],
            str_views(r.default_aliases@) == seq!["bkp"@],
            r.allow_in_dm is None,
            r.default_permission == Some(8u8),
    {
        CommandMetadata {
            name: None,
            key: Some("backup"),
            command: Some("backup"),
            summary: Some("Gere les backups serveur et emojis"),
            alias_source_key: Some("backup"),
            category: "admin",
            params: "<serveur/emoji> <nom> | list/delete/load",
            description: "Cree, liste, supprime et recharge des backups serveur ou emojis.",
            examples: &["+backup serveur prod_1", "+backup list serveur", "+backup load emoji nightly"],
            default_aliases: &["bkp"],
            allow_in_dm: None,
            default_permission: Some(8),
        }
    }
}

/// The `banlist` command.
pub struct BanlistCommand;

impl BanlistCommand {
    /// How the `banlist` command presents itself in the help and what it
    /// needs to run.
    pub fn metadata(&self) -> (r: CommandMetadata)
        ensures
            r.name is None,
            text_of(r.key) == Some("banlist"@),
            text_of(r.command) == Some("banlist"@),
            text_of(r.summary) == Some("Liste les bans"@),
            text_of(r.alias_source_key) == Some("banlist"@),
            r.category@ == "admin"@,
            r.params@ == "aucun"@,
            r.description@ == "Affiche la liste des bannissements en cours."@,
            str_views(r.examples@) == seq!["+banlist"@],
            str_views(r.default_aliases@) == seq!["bls"@],
            r.allow_in_dm is None,
            r.default_permission == Some(8u8),
    {
        CommandMetadata {
            name: None,
            key: Some("banlist"),
            command: Some("banlist"),
            summary: Some("Liste les bans"),
            alias_source_key: Some("banlist"),
            category: "admin",
            params: "aucun",
            description: "Affiche la liste des bannissements en cours.",
            examples: &["+banlist"],
            default_aliases: &["bls"],
            allow_in_dm: None,
            default_permission: Some(8),
        }
    }
}

/// The `blinfo` command.
pub struct BlinfoCommand;

impl BlinfoCommand {
    /// How the `blinfo` command presents itself in the help and what it
    /// needs to run.
    pub fn metadata(&self) -> (r: CommandMetadata)
        ensures
            text_of(r.name) == Some("blinfo"@),
            r.key is None,
            r.command is None,
            text_of(r.summary) == Some("Affiche les details blacklist"@),
            r.alias_source_key is None,
            r.category@ == "admin"@,
            r.params@ == "<@membre/ID>"@,
            r.description@ == "Affiche les details de blacklist pour un utilisateur donne."@,
            str_views(r.examples@) == seq!["+blinfo"@, "+bo"@, "+help blinfo"@],
            str_views(r.default_aliases@) == seq!["bli"@],
            r.allow_in_dm is None,
            r.default_permission == Some(9u8),
    {
        CommandMetadata {
            name: Some("blinfo"),
            key: None,
            command: None,
            summary: Some("Affiche les details blacklist"),
            alias_source_key: None,
            category: "admin",
            params: "<@membre/ID>",
            description: "Affiche les details de blacklist pour un utilisateur donne.",
            examples: &["+blinfo", "+bo", "+help blinfo"],
            default_aliases: &["bli"],
            allow_in_dm: None,
            default_permission: Some(9),
        }
    }
}

/// The `boostlog` command.
pub struct BoostlogCommand;

impl BoostlogCommand {
    /// How the `boostlog` command presents itself in the help and what it
    /// needs to run.
    pub fn metadata(&self) -> (r: CommandMetadata)
        ensures
            text_of(r.name) == Some("boostlog"@),
            r.key is None,
            r.command is None,
            text_of(r.summary) == Some("Active les logs de boosts"@),
            r.alias_source_key is None,
            r.category@ == "admin"@,
            r.params@ == "<on [salon]|off>"@,
            r.description@ == "Active ou desactive les logs de boosts."@,
            str_views(r.examples@) == seq!["+boostlog on #logs"@, "+boostlog off"@],
            str_views(r.default_aliases@) == seq!["blog"@],
            r.allow_in_dm is None,
            r.default_permission == Some(8u8),
    {
        CommandMetadata {
            name: Some("boostlog"),
            key: None,
            command: None,
            summary: Some("Active les logs de boosts"),
            alias_source_key: None,
            category: "admin",
            params: "<on [salon]|off>",
            description: "Active ou desactive les logs de boosts.",
            examples: &["+boostlog on #logs", "+boostlog off"],
            default_aliases: &["blog"],
            allow_in_dm: None,
            default_permission: Some(8),
        }
    }
}

/// The `bringall` command.
pub struct BringAllCommand;

impl BringAllCommand {
    /// How the `bringall` command presents itself in the help and what it
    /// needs to run.
    pub fn metadata(&self) -> (r: CommandMetadata)
        ensures
            text_of(r.name) == Some("bringall"@),
            r.key is None,
            r.command is None,
            text_of(r.summary) == Some("Rassemble tous les vocaux"@),
            r.alias_source_key is None,
            r.category@ == "admin"@,
            r.params@ == "[salon_vocal_destination]"@,
            r.description@ == "Deplace tous les membres actuellement en vocal vers un salon cible."@,
            str_views(r.examples@) == seq!["+bringall #Event"@, "+bringall"@],
            str_views(r.default_aliases@) == seq!["ball"@, "vbring"@],
            r.allow_in_dm is None,
            r.default_permission == Some(8u8),
    {
        CommandMetadata {
            name: Some("bringall"),
            key: None,
            command: None,
            summary: Some("Rassemble tous les vocaux"),
            alias_source_key: None,
            category: "admin",
            params: "[salon_vocal_destination]",
            description: "Deplace tous les membres actuellement en vocal vers un salon cible.",
            examples: &["+bringall #Event", "+bringall"],
            default_aliases: &["ball", "vbring"],
            allow_in_dm: None,
            default_permission: Some(8),
        }
    }
}

/// The `clear all sanctions` command.
pub struct ClearAllSanctionsCommand;

impl ClearAllSanctionsCommand {
    /// How the `clear all sanctions` command presents itself in the help and what it
    /// needs to run.
    pub fn metadata(&self) -> (r: CommandMetadata)
        ensures
            r.name is None,
            text_of(r.key) == Some("clear_all_sanctions"@),
            text_of(r.command) == Some("clear all sanctions"@),
            text_of(r.summary) == Some("Supprime toutes les sanctions du serveur"@),
            text_of(r.alias_source_key) == Some("clear_all_sanctions"@),
            r.category@ == "admin"@,
            r.params@ == "aucun"@,
            r.description@ == "Efface toutes les sanctions de tous les membres du serveur."@,
            str_views(r.examples@) == seq!["+clear all sanctions"@],
            str_views(r.default_aliases@) == seq!["casanctions"@],
            r.allow_in_dm is None,
            r.default_permission == Some(8u8),
    {
        CommandMetadata {
            name: None,
            key: Some("clear_all_sanctions"),
            command: Some("clear all sanctions"),
            summary: Some("Supprime toutes les sanctions du serveur"),
            alias_source_key: Some("clear_all_sanctions"),
            category: "admin",
            params: "aucun",
            description: "Efface toutes les sanctions de tous les membres du serveur.",
            examples: &["+clear all sanctions"],
            default_aliases: &["casanctions"],
            allow_in_dm: None,
            default_permission: Some(8),
        }
    }
}

/// The `clear owners` command.
pub struct ClearOwnersCommand;

impl ClearOwnersCommand {
    /// How the `clear owners` command presents itself in the help and what it
    /// needs to run.
    pub fn metadata(&self) -> (r: CommandMetadata)
        ensures
            r.name is None,
            text_of(r.key) == Some("clear_owners"@),
            text_of(r.command) == Some("clear owners"@),
            text_of(r.summary) == Some("Vide la liste des owners"@),
            text_of(r.alias_source_key) == Some("clear_owners"@),
            r.category@ == "admin"@,
            r.params@ == "aucun"@,
            r.description@ == "Supprime tous les owners supplementaires en base de donnees."@,
            str_views(r.examples@) == seq!["+clear owners"@, "+cs"@, "+help clear owners"@],
            str_views(r.default_aliases@) == seq!["cro"@],
            r.allow_in_dm is None,
            r.default_permission == Some(9u8),
    {
        CommandMetadata {
            name: None,
            key: Some("clear_owners"),
            command: Some("clear owners"),
            summary: Some("Vide la liste des owners"),
            alias_source_key: Some("clear_owners"),
            category: "admin",
            params: "aucun",
            description: "Supprime tous les owners supplementaires en base de donnees.",
            examples: &["+clear owners", "+cs", "+help clear owners"],
            default_aliases: &["cro"],
            allow_in_dm: None,
            default_permission: Some(9),
        }
    }
}

/// The `clear sanctions` command.
pub struct ClearSanctionsCommand;

impl ClearSanctionsCommand {
    /// How the `clear sanctions` command presents itself in the help and what it
    /// needs to run.
    pub fn metadata(&self) -> (r: CommandMetadata)
        ensures
            r.name is None,
            text_of(r.key) == Some("clear_sanctions"@),
            text_of(r.command) == Some("clear sanctions"@),
            text_of(r.summary) == Some("Supprime toutes les sanctions d un membre"@),
            text_of(r.alias_source_key) == Some("clear_sanctions"@),
            r.category@ == "admin"@,
            r.params@ == "<@membre/ID>"@,
            r.description@ == "Efface completement les sanctions d un membre cible."@,
            str_views(r.examples@) == seq!["+clear sanctions @User"@],
            str_views(r.default_aliases@) == seq!["csanctions"@],
            r.allow_in_dm is None,
            r.default_permission == Some(8u8),
    {
        CommandMetadata {
            name: None,
            key: Some("clear_sanctions"),
            command: Some("clear sanctions"),
            summary: Some("Supprime toutes les sanctions d un membre"),
            alias_source_key: Some("clear_sanctions"),
            category: "admin",
            params: "<@membre/ID>",
            description: "Efface completement les sanctions d un membre cible.",
            examples: &["+clear sanctions @User"],
            default_aliases: &["csanctions"],
            allow_in_dm: None,
            default_permission: Some(8),
        }
    }
}

/// The `cmute` command.
pub struct CmuteCommand;

impl CmuteCommand {
    /// How the `cmute` command presents itself in the help and what it
    /// needs to run.
    pub fn metadata(&self) -> (r: CommandMetadata)
        ensures
            r.name is None,
            text_of(r.key) == Some("cmute"@),
            text_of(r.command) == Some("cmute"@),
            text_of(r.summary) == Some("Mute salon"@),
            text_of(r.alias_source_key) == Some("cmute"@),
            r.category@ == "admin"@,
            r.params@ == "<@membre/ID[,..]> [raison]"@,
            r.description@ == "Mute un membre sur le salon courant."@,
            str_views(r.examples@) == seq!["+cmute @User"@],
            str_views(r.default_aliases@) == seq!["cm"@],
            r.allow_in_dm is None,
            r.default_permission == Some(8u8),
    {
        CommandMetadata {
            name: None,
            key: Some("cmute"),
            command: Some("cmute"),
            summary: Some("Mute salon"),
            alias_source_key: Some("cmute"),
            category: "admin",
            params: "<@membre/ID[,..]> [raison]",
            description: "Mute un membre sur le salon courant.",
            examples: &["+cmute @User"],
            default_aliases: &["cm"],
            allow_in_dm: None,
            default_permission: Some(8),
        }
    }
}

/// The `create` command.
pub struct CreateCommand;

impl CreateCommand {
    /// How the `create` command presents itself in the help and what it
    /// needs to run.
    pub fn metadata(&self) -> (r: CommandMetadata)
        ensures
            text_of(r.name) == Some("create"@),
            r.key is None,
            r.command is None,
            text_of(r.summary) == Some("Cree un emoji custom"@),
            r.alias_source_key is None,
            r.category@ == "admin"@,
            r.params@ == "[emoji/url] [nom]"@,
            r.description@ == "Cree un emoji custom a partir d'une image, d'un lien ou d'un emoji nitro."@,
            str_views(r.examples@) == seq!["+create <:blob:123456789012345678> blobcopy"@, "+create https://... logo"@],
            str_views(r.default_aliases@) == seq!["mkemoji"@, "ce"@],
            r.allow_in_dm is None,
            r.default_permission == Some(8u8),
    {
        CommandMetadata {
            name: Some("create"),
            key: None,
            command: None,
            summary: Some("Cree un emoji custom"),
            alias_source_key: None,
            category: "admin",
            params: "[emoji/url] [nom]",
            description: "Cree un emoji custom a partir d'une image, d'un lien ou d'un emoji nitro.",
            examples: &["+create <:blob:123456789012345678> blobcopy", "+create https://... logo"],
            default_aliases: &["mkemoji", "ce"],
            allow_in_dm: None,
            default_permission: Some(8),
        }
    }
}

/// The `giveaway` command.
pub struct GiveawayCommand;

impl GiveawayCommand {
    /// How the `giveaway` command presents itself in the help and what it
    /// needs to run.
    pub fn metadata(&self) -> (r: CommandMetadata)
        ensures
            r.name is None,
            text_of(r.key) == Some("giveaway"@),
            text_of(r.command) == Some("giveaway"@),
            text_of(r.summary) == Some("Ouvre un menu de creation de giveaway"@),
            text_of(r.alias_source_key) == Some("giveaway"@),
            r.category@ == "admin"@,
            r.params@ == "aucun"@,
            r.description@ == "Affiche une interface rapide pour initier un giveaway depuis le salon courant."@,
            str_views(r.examples@) == seq!["+giveaway"@],
            str_views(r.default_aliases@) == seq!["gstart"@, "gw"@],
            r.allow_in_dm is None,
            r.default_permission == Some(8u8),
    {
        CommandMetadata {
            name: None,
            key: Some("giveaway"),
            command: Some("giveaway"),
            summary: Some("Ouvre un menu de creation de giveaway"),
            alias_source_key: Some("giveaway"),
            category: "admin",
            params: "aucun",
            description: "Affiche une interface rapide pour initier un giveaway depuis le salon courant.",
            examples: &["+giveaway"],
            default_aliases: &["gstart", "gw"],
            allow_in_dm: None,
            default_permission: Some(8),
        }
    }
}

/// The `hide` command.
pub struct HideCommand;

impl HideCommand {
    /// How the `hide` command presents itself in the help and what it
    /// needs to run.
    pub fn metadata(&self) -> (r: CommandMetadata)
        ensures
            text_of(r.name) == Some("hide"@),
            r.key is None,
            r.command is None,
            text_of(r.summary) == Some("Cache un salon"@),
            r.alias_source_key is None,
            r.category@ == "admin"@,
            r.params@ == "[salon]"@,
            r.description@ == "Retire la visibilite d un salon."@,
            str_views(r.examples@) == seq!["+hide"@, "+hide #general"@],
            str_views(r.default_aliases@) == seq!["hd"@],
            r.allow_in_dm is None,
            r.default_permission == Some(8u8),
    {
        CommandMetadata {
            name: Some("hide"),
            key: None,
            command: None,
            summary: Some("Cache un salon"),
            alias_source_key: None,
            category: "admin",
            params: "[salon]",
            description: "Retire la visibilite d un salon.",
            examples: &["+hide", "+hide #general"],
            default_aliases: &["hd"],
            allow_in_dm: None,
            default_permission: Some(8),
        }
    }
}

/// The `join` command.
pub struct JoinCommand;

impl JoinCommand {
    /// How the `join` command presents itself in the help and what it
    /// needs to run.
    pub fn metadata(&self) -> (r: CommandMetadata)
        ensures
            r.name is None,
            text_of(r.key) == Some("join"@),
            text_of(r.command) == Some("join"@),
            text_of(r.summary) == Some("Parametre les actions de join"@),
            text_of(r.alias_source_key) == Some("join"@),
            r.category@ == "admin"@,
            r.params@ == "settings [on/off] [salon] [message]"@,
            r.description@ == "Permet de configurer les actions quand un membre rejoint."@,
            str_views(r.examples@) == seq!["+join settings"@, "+join settings on #welcome Bienvenue {user}"@],
            str_views(r.default_aliases@) == seq!["jset"@],
            r.allow_in_dm is None,
            r.default_permission == Some(8u8),
    {
        CommandMetadata {
            name: None,
            key: Some("join"),
            command: Some("join"),
            summary: Some("Parametre les actions de join"),
            alias_source_key: Some("join"),
            category: "admin",
            params: "settings [on/off] [salon] [message]",
            description: "Permet de configurer les actions quand un membre rejoint.",
            examples: &["+join settings", "+join settings on #welcome Bienvenue {user}"],
            default_aliases: &["jset"],
            allow_in_dm: None,
            default_permission: Some(8),
        }
    }
}

/// The `kick` command.
pub struct KickCommand;

impl KickCommand {
    /// How the `kick` command presents itself in the help and what it
    /// needs to run.
    pub fn metadata(&self) -> (r: CommandMetadata)
        ensures
            r.name is None,
            text_of(r.key) == Some("kick"@),
            text_of(r.command) == Some("kick"@),
            text_of(r.summary) == Some("Expulse un membre"@),
            text_of(r.alias_source_key) == Some("kick"@),
            r.category@ == "admin"@,
            r.params@ == "<@membre/ID[,..]> [raison]"@,
            r.description@ == "Kick un ou plusieurs membres."@,
            str_views(r.examples@) == seq!["+kick @User"@],
            str_views(r.default_aliases@) == seq!["k"@],
            r.allow_in_dm is None,
            r.default_permission == Some(8u8),
    {
        CommandMetadata {
            name: None,
            key: Some("kick"),
            command: Some("kick"),
            summary: Some("Expulse un membre"),
            alias_source_key: Some("kick"),
            category: "admin",
            params: "<@membre/ID[,..]> [raison]",
            description: "Kick un ou plusieurs membres.",
            examples: &["+kick @User"],
            default_aliases: &["k"],
            allow_in_dm: None,
            default_permission: Some(8),
        }
    }
}

/// The `leave` command.
pub struct LeaveCommand;

impl LeaveCommand {
    /// How the `leave` command presents itself in the help and what it
    /// needs to run.
    pub fn metadata(&self) -> (r: CommandMetadata)
        ensures
            text_of(r.name) == Some("leave"@),
            r.key is None,
            r.command is None,
            text_of(r.summary) == Some("Fait quitter un serveur"@),
            r.alias_source_key is None,
            r.category@ == "admin"@,
            r.params@ == "[ID_serveur/index]"@,
            r.description@ == "Force le bot a quitter un serveur cible ou le serveur courant."@,
            str_views(r.examples@) == seq!["+leave"@, "+le"@, "+help leave"@],
            str_views(r.default_aliases@) == seq!["lvg"@],
            r.allow_in_dm is None,
            r.default_permission == Some(9u8),
    {
        CommandMetadata {
            name: Some("leave"),
            key: None,
            command: None,
            summary: Some("Fait quitter un serveur"),
            alias_source_key: None,
            category: "admin",
            params: "[ID_serveur/index]",
            description: "Force le bot a quitter un serveur cible ou le serveur courant.",
            examples: &["+leave", "+le", "+help leave"],
            default_aliases: &["lvg"],
            allow_in_dm: None,
            default_permission: Some(9),
        }
    }
}

/// The `messagelog` command.
pub struct MessagelogCommand;

impl MessagelogCommand {
    /// How the `messagelog` command presents itself in the help and what it
    /// needs to run.
    pub fn metadata(&self) -> (r: CommandMetadata)
        ensures
            text_of(r.name) == Some("messagelog"@),
            r.key is None,
            r.command is None,
            text_of(r.summary) == Some("Active les logs de messages"@),
            r.alias_source_key is None,
            r.category@ == "admin"@,
            r.params@ == "<on [salon]|off>"@,
            r.description@ == "Active ou desactive les logs des messages supprimes et edites."@,
            str_views(r.examples@) == seq!["+messagelog on #logs"@, "+messagelog off"@],
            str_views(r.default_aliases@) == seq!["msglog"@],
            r.allow_in_dm is None,
            r.default_permission == Some(8u8),
    {
        CommandMetadata {
            name: Some("messagelog"),
            key: None,
            command: None,
            summary: Some("Active les logs de messages"),
            alias_source_key: None,
            category: "admin",
            params: "<on [salon]|off>",
            description: "Active ou desactive les logs des messages supprimes et edites.",
            examples: &["+messagelog on #logs", "+messagelog off"],
            default_aliases: &["msglog"],
            allow_in_dm: None,
            default_permission: Some(8),
        }
    }
}

/// The `newsticker` command.
pub struct NewStickerCommand;

impl NewStickerCommand {
    /// How the `newsticker` command presents itself in the help and what it
    /// needs to run.
    pub fn metadata(&self) -> (r: CommandMetadata)
        ensures
            r.name is None,
            text_of(r.key) == Some("newsticker"@),
            text_of(r.command) == Some("newsticker"@),
            text_of(r.summary) == Some("Cree un sticker serveur"@),
            text_of(r.alias_source_key) == Some("newsticker"@),
            r.category@ == "admin"@,
            r.params@ == "[nom]"@,
            r.description@ == "Cree un nouveau sticker a partir d'un sticker ou fichier repondu."@,
            str_views(r.examples@) == seq!["+newsticker cool_pack"@],
            str_views(r.default_aliases@) == seq!["stcreate"@, "nst"@],
            r.allow_in_dm is None,
            r.default_permission == Some(8u8),
    {
        CommandMetadata {
            name: None,
            key: Some("newsticker"),
            command: Some("newsticker"),
            summary: Some("Cree un sticker serveur"),
            alias_source_key: Some("newsticker"),
            category: "admin",
            params: "[nom]",
            description: "Cree un nouveau sticker a partir d'un sticker ou fichier repondu.",
            examples: &["+newsticker cool_pack"],
            default_aliases: &["stcreate", "nst"],
            allow_in_dm: None,
            default_permission: Some(8),
        }
    }
}

/// The `nolog` command.
pub struct NologCommand;

impl NologCommand {
    /// How the `nolog` command presents itself in the help and what it
    /// needs to run.
    pub fn metadata(&self) -> (r: CommandMetadata)
        ensures
            r.name is None,
            text_of(r.key) == Some("nolog"@),
            text_of(r.command) == Some("nolog"@),
            text_of(r.summary) == Some("Exclut des salons des logs"@),
            text_of(r.alias_source_key) == Some("nolog"@),
            r.category@ == "admin"@,
            r.params@ == "<add/del> [salon] [message|voice|all]"@,
            r.description@ == "Desactive ou reactive les logs message/voice pour certains salons."@,
            str_views(r.examples@) == seq!["+nolog add #secret all"@, "+nolog del #secret message"@],
            str_views(r.default_aliases@) == seq!["nlg"@],
            r.allow_in_dm is None,
            r.default_permission == Some(8u8),
    {
        CommandMetadata {
            name: None,
            key: Some("nolog"),
            command: Some("nolog"),
            summary: Some("Exclut des salons des logs"),
            alias_source_key: Some("nolog"),
            category: "admin",
            params: "<add/del> [salon] [message|voice|all]",
            description: "Desactive ou reactive les logs message/voice pour certains salons.",
            examples: &["+nolog add #secret all", "+nolog del #secret message"],
            default_aliases: &["nlg"],
            allow_in_dm: None,
            default_permission: Some(8),
        }
    }
}

/// The `raidlog` command.
pub struct RaidlogCommand;

impl RaidlogCommand {
    /// How the `raidlog` command presents itself in the help and what it
    /// needs to run.
    pub fn metadata(&self) -> (r: CommandMetadata)
        ensures
            text_of(r.name) == Some("raidlog"@),
            r.key is None,
            r.command is None,
            text_of(r.summary) == Some("Active les logs antiraid"@),
            r.alias_source_key is None,
            r.category@ == "admin"@,
            r.params@ == "[salon]|off"@,
            r.description@ == "Active les logs antiraid dans un salon ou les desactive."@,
            str_views(r.examples@) == seq!["+raidlog #logs"@, "+raidlog off"@],
            str_views(r.default_aliases@) == seq!["rdlog"@],
            r.allow_in_dm is None,
            r.default_permission == Some(8u8),
    {
        CommandMetadata {
            name: Some("raidlog"),
            key: None,
            command: None,
            summary: Some("Active les logs antiraid"),
            alias_source_key: None,
            category: "admin",
            params: "[salon]|off",
            description: "Active les logs antiraid dans un salon ou les desactive.",
            examples: &["+raidlog #logs", "+raidlog off"],
            default_aliases: &["rdlog"],
            allow_in_dm: None,
            default_permission: Some(8),
        }
    }
}

/// The `reroll` command.
pub struct RerollCommand;

impl RerollCommand {
    /// How the `reroll` command presents itself in the help and what it
    /// needs to run.
    pub fn metadata(&self) -> (r: CommandMetadata)
        ensures
            text_of(r.name) == Some("reroll"@),
            r.key is None,
            r.command is None,
            text_of(r.summary) == Some("Relance un tirage giveaway"@),
            r.alias_source_key is None,
            r.category@ == "admin"@,
            r.params@ == "aucun (en reponse a un message)"@,
            r.description@ == "Choisit un nouveau gagnant depuis le message cible."@,
            str_views(r.examples@) == seq!["+reroll"@],
            str_views(r.default_aliases@) == seq!["rro"@, "greroll"@],
            r.allow_in_dm is None,
            r.default_permission == Some(8u8),
    {
        CommandMetadata {
            name: Some("reroll"),
            key: None,
            command: None,
            summary: Some("Relance un tirage giveaway"),
            alias_source_key: None,
            category: "admin",
            params: "aucun (en reponse a un message)",
            description: "Choisit un nouveau gagnant depuis le message cible.",
            examples: &["+reroll"],
            default_aliases: &["rro", "greroll"],
            allow_in_dm: None,
            default_permission: Some(8),
        }
    }
}

/// The `sanctions` command.
pub struct SanctionsCommand;

impl SanctionsCommand {
    /// How the `sanctions` command presents itself in the help and what it
    /// needs to run.
    pub fn metadata(&self) -> (r: CommandMetadata)
        ensures
            text_of(r.name) == Some("sanctions"@),
            r.key is None,
            r.command is None,
            text_of(r.summary) == Some("Affiche les sanctions d un membre"@),
            r.alias_source_key is None,
            r.category@ == "admin"@,
            r.params@ == "<@membre/ID>"@,
            r.description@ == "Liste l historique des sanctions d un membre."@,
            str_views(r.examples@) == seq!["+sanctions @User"@],
            str_views(r.default_aliases@) == seq!["sanct"@],
            r.allow_in_dm is None,
            r.default_permission == Some(8u8),
    {
        CommandMetadata {
            name: Some("sanctions"),
            key: None,
            command: None,
            summary: Some("Affiche les sanctions d un membre"),
            alias_source_key: None,
            category: "admin",
            params: "<@membre/ID>",
            description: "Liste l historique des sanctions d un membre.",
            examples: &["+sanctions @User"],
            default_aliases: &["sanct"],
            allow_in_dm: None,
            default_permission: Some(8),
        }
    }
}

/// The `set_boostembed` command.
pub struct SetBoostembedCommand;

impl SetBoostembedCommand {
    /// How the `set_boostembed` command presents itself in the help and what it
    /// needs to run.
    pub fn metadata(&self) -> (r: CommandMetadata)
        ensures
            text_of(r.name) == Some("set_boostembed"@),
            r.key is None,
            r.command is None,
            text_of(r.summary) == Some("Parametre l embed de boost"@),
            r.alias_source_key is None,
            r.category@ == "admin"@,
            r.params@ == "<title|description|color> <valeur>"@,
            r.description@ == "Configure le titre, la description et la couleur de l embed boost."@,
            str_views(r.examples@) == seq!["+set boostembed title Merci"@, "+set boostembed color #FF66CC"@],
            str_views(r.default_aliases@) == seq!["sboostembed"@],
            r.allow_in_dm is None,
            r.default_permission == Some(8u8),
    {
        CommandMetadata {
            name: Some("set_boostembed"),
            key: None,
            command: None,
            summary: Some("Parametre l embed de boost"),
            alias_source_key: None,
            category: "admin",
            params: "<title|description|color> <valeur>",
            description: "Configure le titre, la description et la couleur de l embed boost.",
            examples: &["+set boostembed title Merci", "+set boostembed color #FF66CC"],
            default_aliases: &["sboostembed"],
            allow_in_dm: None,
            default_permission: Some(8),
        }
    }
}

/// The `suggestion` command.
pub struct SuggestionCommand;

impl SuggestionCommand {
    /// How the `suggestion` command presents itself in the help and what it
    /// needs to run.
    pub fn metadata(&self) -> (r: CommandMetadata)
        ensures
            text_of(r.name) == Some("suggestion"@),
            r.key is None,
            r.command is None,
            text_of(r.summary) == Some("Publie ou configure les suggestions"@),
            r.alias_source_key is None,
            r.category@ == "admin"@,
            r.params@ == "<contenu...> | settings"@,
            r.description@ == "Publie une suggestion utilisateur ou ouvre le panneau de configuration."@,
            str_views(r.examples@) == seq!["+suggestion Ameliorer le salon"@, "+suggestion settings"@, "+help suggestion"@],
            r.default_aliases@.len() == 0,
            r.allow_in_dm is None,
            r.default_permission == Some(0u8),
    {
        CommandMetadata {
            name: Some("suggestion"),
            key: None,
            command: None,
            summary: Some("Publie ou configure les suggestions"),
            alias_source_key: None,
            category: "admin",
            params: "<contenu...> | settings",
            description: "Publie une suggestion utilisateur ou ouvre le panneau de configuration.",
            examples: &["+suggestion Ameliorer le salon", "+suggestion settings", "+help suggestion"],
            default_aliases: &[],
            allow_in_dm: None,
            default_permission: Some(0),
        }
    }
}

/// The `sync` command.
pub struct SyncCommand;

impl SyncCommand {
    /// How the `sync` command presents itself in the help and what it
    /// needs to run.
    pub fn metadata(&self) -> (r: CommandMetadata)
        ensures
            r.name is None,
            text_of(r.key) == Some("sync"@),
            text_of(r.command) == Some("sync"@),
            text_of(r.summary) == Some("Synchronise les permissions"@),
            text_of(r.alias_source_key) == Some("sync"@),
            r.category@ == "admin"@,
            r.params@ == "<salon/categorie/all>"@,
            r.description@ == "Synchronise les permissions d'un salon avec sa categorie, ou tous les salons avec all."@,
            str_views(r.examples@) == seq!["+sync all"@, "+sync #general"@],
            str_views(r.default_aliases@) == seq!["chsync"@],
            r.allow_in_dm is None,
            r.default_permission == Some(8u8),
    {
        CommandMetadata {
            name: None,
            key: Some("sync"),
            command: Some("sync"),
            summary: Some("Synchronise les permissions"),
            alias_source_key: Some("sync"),
            category: "admin",
            params: "<salon/categorie/all>",
            description: "Synchronise les permissions d'un salon avec sa categorie, ou tous les salons avec all.",
            examples: &["+sync all", "+sync #general"],
            default_aliases: &["chsync"],
            allow_in_dm: None,
            default_permission: Some(8),
        }
    }
}

/// The `tempban` command.
pub struct TempbanCommand;

impl TempbanCommand {
    /// How the `tempban` command presents itself in the help and what it
    /// needs to run.
    pub fn metadata(&self) -> (r: CommandMetadata)
        ensures
            r.name is None,
            text_of(r.key) == Some("tempban"@),
            text_of(r.command) == Some("tempban"@),
            text_of(r.summary) == Some("Ban temporaire"@),
            text_of(r.alias_source_key) == Some("tempban"@),
            r.category@ == "admin"@,
            r.params@ == "<@membre/ID[,..]> <duree> [raison]"@,
            r.description@ == "Ban temporairement un ou plusieurs membres."@,
            str_views(r.examples@) == seq!["+tempban @User 1d"@],
            str_views(r.default_aliases@) == seq!["tb"@],
            r.allow_in_dm is None,
            r.default_permission == Some(8u8),
    {
        CommandMetadata {
            name: None,
            key: Some("tempban"),
            command: Some("tempban"),
            summary: Some("Ban temporaire"),
            alias_source_key: Some("tempban"),
            category: "admin",
            params: "<@membre/ID[,..]> <duree> [raison]",
            description: "Ban temporairement un ou plusieurs membres.",
            examples: &["+tempban @User 1d"],
            default_aliases: &["tb"],
            allow_in_dm: None,
            default_permission: Some(8),
        }
    }
}

/// The `tempcmute` command.
pub struct TempcmuteCommand;

impl TempcmuteCommand {
    /// How the `tempcmute` command presents itself in the help and what it
    /// needs to run.
    pub fn metadata(&self) -> (r: CommandMetadata)
        ensures
            r.name is None,
            text_of(r.key) == Some("tempcmute"@),
            text_of(r.command) == Some("tempcmute"@),
            text_of(r.summary) == Some("Mute salon temporaire"@),
            text_of(r.alias_source_key) == Some("tempcmute"@),
            r.category@ == "admin"@,
            r.params@ == "<@membre/ID[,..]> <duree> [raison]"@,
            r.description@ == "Mute temporaire sur le salon courant."@,
            str_views(r.examples@) == seq!["+tempcmute @User 5m"@],
            str_views(r.default_aliases@) == seq!["tcm"@],
            r.allow_in_dm is None,
            r.default_permission == Some(8u8),
    {
        CommandMetadata {
            name: None,
            key: Some("tempcmute"),
            command: Some("tempcmute"),
            summary: Some("Mute salon temporaire"),
            alias_source_key: Some("tempcmute"),
            category: "admin",
            params: "<@membre/ID[,..]> <duree> [raison]",
            description: "Mute temporaire sur le salon courant.",
            examples: &["+tempcmute @User 5m"],
            default_aliases: &["tcm"],
            allow_in_dm: None,
            default_permission: Some(8),
        }
    }
}

/// The `tempmute` command.
pub struct TempmuteCommand;

impl TempmuteCommand {
    /// How the `tempmute` command presents itself in the help and what it
    /// needs to run.
    pub fn metadata(&self) -> (r: CommandMetadata)
        ensures
            r.name is None,
            text_of(r.key) == Some("tempmute"@),
            text_of(r.command) == Some("tempmute"@),
            text_of(r.summary) == Some("Mute temporaire"@),
            text_of(r.alias_source_key) == Some("tempmute"@),
            r.category@ == "admin"@,
            r.params@ == "<@membre/ID[,..]> <duree> [raison]"@,
            r.description@ == "Mute un ou plusieurs membres pour une duree donnee."@,
            str_views(r.examples@) == seq!["+tempmute @User 10m"@],
            str_views(r.default_aliases@) == seq!["tm"@],
            r.allow_in_dm is None,
            r.default_permission == Some(8u8),
    {
        CommandMetadata {
            name: None,
            key: Some("tempmute"),
            command: Some("tempmute"),
            summary: Some("Mute temporaire"),
            alias_source_key: Some("tempmute"),
            category: "admin",
            params: "<@membre/ID[,..]> <duree> [raison]",
            description: "Mute un ou plusieurs membres pour une duree donnee.",
            examples: &["+tempmute @User 10m"],
            default_aliases: &["tm"],
            allow_in_dm: None,
            default_permission: Some(8),
        }
    }
}

/// The `tempvoc` command.
pub struct TempvocCommand;

impl TempvocCommand {
    /// How the `tempvoc` command presents itself in the help and what it
    /// needs to run.
    pub fn metadata(&self) -> (r: CommandMetadata)
        ensures
            text_of(r.name) == Some("tempvoc"@),
            r.key is None,
            r.command is None,
            text_of(r.summary) == Some("Configure les vocaux temporaires"@),
            r.alias_source_key is None,
            r.category@ == "admin"@,
            r.params@ == "[cmd]"@,
            r.description@ == "Affiche le menu de configuration du systeme de vocaux temporaires."@,
            str_views(r.examples@) == seq!["+tempvoc"@, "+tempvoc cmd"@, "+help tempvoc"@],
            r.default_aliases@.len() == 0,
            r.allow_in_dm is None,
            r.default_permission == Some(8u8),
    {
        CommandMetadata {
            name: Some("tempvoc"),
            key: None,
            command: None,
            summary: Some("Configure les vocaux temporaires"),
            alias_source_key: None,
            category: "admin",
            params: "[cmd]",
            description: "Affiche le menu de configuration du systeme de vocaux temporaires.",
            examples: &["+tempvoc", "+tempvoc cmd", "+help tempvoc"],
            default_aliases: &[],
            allow_in_dm: None,
            default_permission: Some(8),
        }
    }
}

/// The `ticket` command.
pub struct TicketCommand;

impl TicketCommand {
    /// How the `ticket` command presents itself in the help and what it
    /// needs to run.
    pub fn metadata(&self) -> (r: CommandMetadata)
        ensures
            text_of(r.name) == Some("ticket"@),
            r.key is None,
            r.command is None,
            text_of(r.summary) == Some("Ouvre la gestion des tickets"@),
            r.alias_source_key is None,
            r.category@ == "admin"@,
            r.params@ == "settings"@,
            r.description@ == "Affiche le menu de configuration du systeme de tickets."@,
            str_views(r.examples@) == seq!["+ticket"@, "+help ticket"@],
            r.default_aliases@.len() == 0,
            r.allow_in_dm is None,
            r.default_permission == Some(8u8),
    {
        CommandMetadata {
            name: Some("ticket"),
            key: None,
            command: None,
            summary: Some("Ouvre la gestion des tickets"),
            alias_source_key: None,
            category: "admin",
            params: "settings",
            description: "Affiche le menu de configuration du systeme de tickets.",
            examples: &["+ticket", "+help ticket"],
            default_aliases: &[],
            allow_in_dm: None,
            default_permission: Some(8),
        }
    }
}

/// The `unbanall` command.
pub struct UnbanAllCommand;

impl UnbanAllCommand {
    /// How the `unbanall` command presents itself in the help and what it
    /// needs to run.
    pub fn metadata(&self) -> (r: CommandMetadata)
        ensures
            r.name is None,
            text_of(r.key) == Some("unbanall"@),
            text_of(r.command) == Some("unbanall"@),
            text_of(r.summary) == Some("Retire tous les bannissements"@),
            text_of(r.alias_source_key) == Some("unbanall"@),
            r.category@ == "admin"@,
            r.params@ == "aucun"@,
            r.description@ == "Supprime tous les bans du serveur cible."@,
            str_views(r.examples@) == seq!["+unbanall"@],
            str_views(r.default_aliases@) == seq!["uball"@, "clearbans"@],
            r.allow_in_dm is None,
            r.default_permission == Some(8u8),
    {
        CommandMetadata {
            name: None,
            key: Some("unbanall"),
            command: Some("unbanall"),
            summary: Some("Retire tous les bannissements"),
            alias_source_key: Some("unbanall"),
            category: "admin",
            params: "aucun",
            description: "Supprime tous les bans du serveur cible.",
            examples: &["+unbanall"],
            default_aliases: &["uball", "clearbans"],
            allow_in_dm: None,
            default_permission: Some(8),
        }
    }
}

/// The `uncmute` command.
pub struct UncmuteCommand;

impl UncmuteCommand {
    /// How the `uncmute` command presents itself in the help and what it
    /// needs to run.
    pub fn metadata(&self) -> (r: CommandMetadata)
        ensures
            text_of(r.name) == Some("uncmute"@),
            r.key is None,
            r.command is None,
            text_of(r.summary) == Some("Retire un cmute"@),
            r.alias_source_key is None,
            r.category@ == "admin"@,
            r.params@ == "<@membre/ID[,..]>"@,
            r.description@ == "Met fin au mute salon."@,
            str_views(r.examples@) == seq!["+uncmute @User"@],
            str_views(r.default_aliases@) == seq!["ucm"@],
            r.allow_in_dm is None,
            r.default_permission == Some(8u8),
    {
        CommandMetadata {
            name: Some("uncmute"),
            key: None,
            command: None,
            summary: Some("Retire un cmute"),
            alias_source_key: None,
            category: "admin",
            params: "<@membre/ID[,..]>",
            description: "Met fin au mute salon.",
            examples: &["+uncmute @User"],
            default_aliases: &["ucm"],
            allow_in_dm: None,
            default_permission: Some(8),
        }
    }
}

/// The `unhide` command.
pub struct UnhideCommand;

impl UnhideCommand {
    /// How the `unhide` command presents itself in the help and what it
    /// needs to run.
    pub fn metadata(&self) -> (r: CommandMetadata)
        ensures
            r.name is None,
            text_of(r.key) == Some("unhide"@),
            text_of(r.command) == Some("unhide"@),
            text_of(r.summary) == Some("Affiche un salon"@),
            text_of(r.alias_source_key) == Some("unhide"@),
            r.category@ == "admin"@,
            r.params@ == "[salon]"@,
            r.description@ == "Rend a nouveau visible un salon."@,
            str_views(r.examples@) == seq!["+unhide"@, "+unhide #general"@],
            str_views(r.default_aliases@) == seq!["uhd"@],
            r.allow_in_dm is None,
            r.default_permission == Some(8u8),
    {
        CommandMetadata {
            name: None,
            key: Some("unhide"),
            command: Some("unhide"),
            summary: Some("Affiche un salon"),
            alias_source_key: Some("unhide"),
            category: "admin",
            params: "[salon]",
            description: "Rend a nouveau visible un salon.",
            examples: &["+unhide", "+unhide #general"],
            default_aliases: &["uhd"],
            allow_in_dm: None,
            default_permission: Some(8),
        }
    }
}

/// The `unhideall` command.
pub struct UnhideallCommand;

impl UnhideallCommand {
    /// How the `unhideall` command presents itself in the help and what it
    /// needs to run.
    pub fn metadata(&self) -> (r: CommandMetadata)
        ensures
            text_of(r.name) == Some("unhideall"@),
            r.key is None,
            r.command is None,
            text_of(r.summary) == Some("Affiche tous les salons"@),
            r.alias_source_key is None,
            r.category@ == "admin"@,
            r.params@ == "aucun"@,
            r.description@ == "Rend visibles tous les salons du serveur."@,
            str_views(r.examples@) == seq!["+unhideall"@],
            str_views(r.default_aliases@) == seq!["uhda"@],
            r.allow_in_dm is None,
            r.default_permission == Some(8u8),
    {
        CommandMetadata {
            name: Some("unhideall"),
            key: None,
            command: None,
            summary: Some("Affiche tous les salons"),
            alias_source_key: None,
            category: "admin",
            params: "aucun",
            description: "Rend visibles tous les salons du serveur.",
            examples: &["+unhideall"],
            default_aliases: &["uhda"],
            allow_in_dm: None,
            default_permission: Some(8),
        }
    }
}

/// The `unlockall` command.
pub struct UnlockallCommand;

impl UnlockallCommand {
    /// How the `unlockall` command presents itself in the help and what it
    /// needs to run.
    pub fn metadata(&self) -> (r: CommandMetadata)
        ensures
            r.name is None,
            text_of(r.key) == Some("unlockall"@),
            text_of(r.command) == Some("unlockall"@),
            text_of(r.summary) == Some("Ouvre tous les salons"@),
            text_of(r.alias_source_key) == Some("unlockall"@),
            r.category@ == "admin"@,
            r.params@ == "aucun"@,
            r.description@ == "Deverrouille tous les salons du serveur."@,
            str_views(r.examples@) == seq!["+unlockall"@],
            str_views(r.default_aliases@) == seq!["ulka"@],
            r.allow_in_dm is None,
            r.default_permission == Some(8u8),
    {
        CommandMetadata {
            name: None,
            key: Some("unlockall"),
            command: Some("unlockall"),
            summary: Some("Ouvre tous les salons"),
            alias_source_key: Some("unlockall"),
            category: "admin",
            params: "aucun",
            description: "Deverrouille tous les salons du serveur.",
            examples: &["+unlockall"],
            default_aliases: &["ulka"],
            allow_in_dm: None,
            default_permission: Some(8),
        }
    }
}

/// The `unmassiverole` command.
pub struct UnMassiveRoleCommand;

impl UnMassiveRoleCommand {
    /// How the `unmassiverole` command presents itself in the help and what it
    /// needs to run.
    pub fn metadata(&self) -> (r: CommandMetadata)
        ensures
            r.name is None,
            text_of(r.key) == Some("unmassiverole"@),
            text_of(r.command) == Some("unmassiverole"@),
            text_of(r.summary) == Some("Retire un role en masse"@),
            text_of(r.alias_source_key) == Some("unmassiverole"@),
            r.category@ == "admin"@,
            r.params@ == "<role_cible> [role_filtre]"@,
            r.description@ == "Retire un role a tous les membres ou a ceux qui ont un role filtre."@,
            str_views(r.examples@) == seq!["+unmassiverole @VIP"@, "+unmassiverole @VIP @Membres"@],
            str_views(r.default_aliases@) == seq!["umrole"@, "umr"@],
            r.allow_in_dm is None,
            r.default_permission == Some(8u8),
    {
        CommandMetadata {
            name: None,
            key: Some("unmassiverole"),
            command: Some("unmassiverole"),
            summary: Some("Retire un role en masse"),
            alias_source_key: Some("unmassiverole"),
            category: "admin",
            params: "<role_cible> [role_filtre]",
            description: "Retire un role a tous les membres ou a ceux qui ont un role filtre.",
            examples: &["+unmassiverole @VIP", "+unmassiverole @VIP @Membres"],
            default_aliases: &["umrole", "umr"],
            allow_in_dm: None,
            default_permission: Some(8),
        }
    }
}

/// The `voicekick` command.
pub struct VoiceKickCommand;

impl VoiceKickCommand {
    /// How the `voicekick` command presents itself in the help and what it
    /// needs to run.
    pub fn metadata(&self) -> (r: CommandMetadata)
        ensures
            r.name is None,
            text_of(r.key) == Some("voicekick"@),
            text_of(r.command) == Some("voicekick"@),
            text_of(r.summary) == Some("Deconnecte des membres du vocal"@),
            text_of(r.alias_source_key) == Some("voicekick"@),
            r.category@ == "admin"@,
            r.params@ == "<membre...>"@,
            r.description@ == "Deconnecte un ou plusieurs membres de leur salon vocal actuel."@,
            str_views(r.examples@) == seq!["+voicekick @User"@, "+voicekick @U1 @U2"@],
            str_views(r.default_aliases@) == seq!["vk"@, "vdisconnect"@],
            r.allow_in_dm is None,
            r.default_permission == Some(8u8),
    {
        CommandMetadata {
            name: None,
            key: Some("voicekick"),
            command: Some("voicekick"),
            summary: Some("Deconnecte des membres du vocal"),
            alias_source_key: Some("voicekick"),
            category: "admin",
            params: "<membre...>",
            description: "Deconnecte un ou plusieurs membres de leur salon vocal actuel.",
            examples: &["+voicekick @User", "+voicekick @U1 @U2"],
            default_aliases: &["vk", "vdisconnect"],
            allow_in_dm: None,
            default_permission: Some(8),
        }
    }
}

/// The `voicelog` command.
pub struct VoicelogCommand;

impl VoicelogCommand {
    /// How the `voicelog` command presents itself in the help and what it
    /// needs to run.
    pub fn metadata(&self) -> (r: CommandMetadata)
        ensures
            r.name is None,
            text_of(r.key) == Some("voicelog"@),
            text_of(r.command) == Some("voicelog"@),
            text_of(r.summary) == Some("Active les logs vocaux"@),
            text_of(r.alias_source_key) == Some("voicelog"@),
            r.category@ == "admin"@,
            r.params@ == "<on [salon]|off>"@,
            r.description@ == "Active ou desactive les logs de l activite vocale."@,
            str_views(r.examples@) == seq!["+voicelog on #logs"@, "+voicelog off"@],
            str_views(r.default_aliases@) == seq!["vlog"@],
            r.allow_in_dm is None,
            r.default_permission == Some(8u8),
    {
        CommandMetadata {
            name: None,
            key: Some("voicelog"),
            command: Some("voicelog"),
            summary: Some("Active les logs vocaux"),
            alias_source_key: Some("voicelog"),
            category: "admin",
            params: "<on [salon]|off>",
            description: "Active ou desactive les logs de l activite vocale.",
            examples: &["+voicelog on #logs", "+voicelog off"],
            default_aliases: &["vlog"],
            allow_in_dm: None,
            default_permission: Some(8),
        }
    }
}

/// The `warn` command.
pub struct WarnCommand;

impl WarnCommand {
    /// How the `warn` command presents itself in the help and what it
    /// needs to run.
    pub fn metadata(&self) -> (r: CommandMetadata)
        ensures
            text_of(r.name) == Some("warn"@),
            r.key is None,
            r.command is None,
            text_of(r.summary) == Some("Donne un warn"@),
            r.alias_source_key is None,
            r.category@ == "admin"@,
            r.params@ == "<@membre/ID[,..]> [raison]"@,
            r.description@ == "Ajoute un warn a un ou plusieurs membres."@,
            str_views(r.examples@) == seq!["+warn @User spam"@],
            str_views(r.default_aliases@) == seq!["avert"@],
            r.allow_in_dm is None,
            r.default_permission == Some(8u8),
    {
        CommandMetadata {
            name: Some("warn"),
            key: None,
            command: None,
            summary: Some("Donne un warn"),
            alias_source_key: None,
            category: "admin",
            params: "<@membre/ID[,..]> [raison]",
            description: "Ajoute un warn a un ou plusieurs membres.",
            examples: &["+warn @User spam"],
            default_aliases: &["avert"],
            allow_in_dm: None,
            default_permission: Some(8),
        }
    }
}

} // verus!

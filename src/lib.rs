//! Color-role moderation bot: the decisions behind role provisioning, color
//! assignment on join and the deferred auto-kick, stated and proved.

use vstd::prelude::*;

pub mod catalog;
pub mod kick;
pub mod provision;
pub mod settings;

use crate::catalog::ColorCatalog;
use crate::settings::AutoKickSettings;

verus! {

/// Per-process data handed to every command and event by the bot framework.
pub struct Data {}

/// The credential that ships in a fresh configuration.
pub const PLACEHOLDER_TOKEN: &'static str = "YOUR_BOT_TOKEN";

/// Whether `token` is still the shipped placeholder, in which case the bot
/// must refuse to start.
pub fn token_is_placeholder(token: &String) -> (r: bool)
    ensures
        r == (token@ == PLACEHOLDER_TOKEN@),
{
    let placeholder = String::from_str(PLACEHOLDER_TOKEN);
    *token == placeholder
}

/// Everything loaded once at start and read-only afterwards.
pub struct BotConfig {
    pub colors: ColorCatalog,
    pub auto_kick: AutoKickSettings,
    pub invite_link: String,
    pub bot_token: String,
}

impl BotConfig {
    /// The catalog and the auto-kick table are well formed.
    pub open spec fn wf(&self) -> bool {
        self.colors.wf() && self.auto_kick.wf()
    }
}

} // verus!

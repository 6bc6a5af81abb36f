use vstd::prelude::*;

verus! {

/// Whether members joining one guild are checked for a chosen role.
pub struct GuildSetting {
    pub guild_id: u64,
    pub enabled: bool,
}

/// The per-guild auto-kick table; a guild absent from it is never checked.
pub struct AutoKickSettings {
    pub guilds: Vec<GuildSetting>,
}

impl AutoKickSettings {
    /// No guild is listed twice.
    pub open spec fn wf(&self) -> bool {
        forall|i: int, j: int|
            0 <= i < j < self.guilds@.len() ==> (#[trigger] self.guilds@[i]).guild_id
                != (#[trigger] self.guilds@[j]).guild_id
    }

    /// The guild is listed, with auto-kick switched on.
    pub open spec fn enabled_for(&self, guild_id: u64) -> bool {
        exists|i: int|
            0 <= i < self.guilds@.len() && (#[trigger] self.guilds@[i]).guild_id == guild_id
                && self.guilds@[i].enabled
    }

    /// The guild is listed at all.
    pub open spec fn lists(&self, guild_id: u64) -> bool {
        exists|i: int| 0 <= i < self.guilds@.len() && (#[trigger] self.guilds@[i]).guild_id == guild_id
    }

    /// Builds the table; `None` where a guild is listed twice.
    pub fn new(guilds: Vec<GuildSetting>) -> (r: Option<AutoKickSettings>)
        ensures
            match r {
                Some(s) => s.guilds@ == guilds@ && s.wf(),
                None => exists|i: int, j: int|
                    0 <= i < j < guilds@.len() && guilds@[i].guild_id == guilds@[j].guild_id,
            },
    {
        let n = guilds.len();
        let mut j: usize = 0;
        while j < n
            invariant
                n == guilds@.len(),
                j <= n,
                forall|a: int, b: int|
                    0 <= a < b < j ==> (#[trigger] guilds@[a]).guild_id
                        != (#[trigger] guilds@[b]).guild_id,
            decreases n - j,
        {
            let mut i: usize = 0;
            while i < j
                invariant
                    n == guilds@.len(),
                    i <= j < n,
                    forall|a: int| 0 <= a < i ==> guilds@[a].guild_id != guilds@[j as int].guild_id,
                decreases j - i,
            {
                if guilds[i].guild_id == guilds[j].guild_id {
                    return None;
                }
                i = i + 1;
            }
            j = j + 1;
        }
        Some(AutoKickSettings { guilds })
    }

    /// Whether joins to `guild_id` get a deferred kick check.
    pub fn is_enabled(&self, guild_id: u64) -> (r: bool)
        ensures
            r == self.enabled_for(guild_id),
            !self.lists(guild_id) ==> !r,
    {
        let mut i: usize = 0;
        while i < self.guilds.len()
            invariant
                i <= self.guilds@.len(),
                forall|a: int|
                    0 <= a < i ==> !((#[trigger] self.guilds@[a]).guild_id == guild_id
                        && self.guilds@[a].enabled),
            decreases self.guilds@.len() - i,
        {
            if self.guilds[i].guild_id == guild_id && self.guilds[i].enabled {
                return true;
            }
            i = i + 1;
        }
        false
    }
}

} // verus!

use vstd::prelude::*;
use crate::catalog::ColorCatalog;
use crate::settings::AutoKickSettings;

verus! {

/// Seconds between a member's join and the check of their roles.
pub const KICK_DELAY_SECS: u64 = 1800;

/// Reason recorded with the kick.
pub const KICK_REASON: &'static str = "User hasn't picked a role after 30 minutes";

/// How a deferred kick check ended.
#[derive(Clone, Copy, Debug, PartialEq, Eq, Structural)]
pub enum KickOutcome {
    /// The member holds a role given by hand: nothing is done.
    NoOp,
    /// The member was sent the warning (or it failed) and then kicked.
    WarnedAndKicked,
    /// Data was missing or the kick failed: nothing more is done.
    Aborted,
}

/// Where a deferred kick check stands.
#[derive(Clone, Copy, Debug, PartialEq, Eq, Structural)]
pub enum KickPhase {
    /// Waiting for the fire time.
    Sleeping,
    /// Awake, waiting for the member's current roles.
    Evaluating,
    /// Waiting for the outcome of the private warning message.
    Warning,
    /// Waiting for the outcome of the kick.
    Kicking,
    /// Ended; nothing more is asked for.
    Finished(KickOutcome),
}

/// What the surrounding runtime reports back to a check.
pub enum KickEvent {
    /// The fire time has come.
    Woke,
    /// The member's live role names.
    Roles(Vec<String>),
    /// The member's roles could not be read.
    RolesUnavailable,
    /// The warning message was delivered.
    DmSent,
    /// The warning message could not be delivered.
    DmFailed,
    /// The member was kicked.
    KickSucceeded,
    /// The kick call failed.
    KickFailed,
}

/// What a check asks the surrounding runtime to do next.
#[derive(Clone, Copy, Debug, PartialEq, Eq, Structural)]
pub enum KickAction {
    /// Suspend until the given time (seconds), then report `Woke`.
    SleepUntil(u64),
    /// Read the member's current roles, then report `Roles` or `RolesUnavailable`.
    FetchRoles,
    /// Send the member the warning message, then report `DmSent` or `DmFailed`.
    SendWarning,
    /// Kick the member with `KICK_REASON`, then report `KickSucceeded` or `KickFailed`.
    Kick,
    /// Nothing more: the check has ended.
    Stop,
}

/// The private message sent before a kick, ending with the invite link.
pub fn warning_message(invite_link: &String) -> (r: String)
    ensures
        r@ == "You got kicked from the server.\nPlease read the welcome channel for more information\n"@
            + invite_link@,
{
    let head = String::from_str(
        "You got kicked from the server.\nPlease read the welcome channel for more information\n",
    );
    head.concat(invite_link.as_str())
}

/// The phase that follows `phase` when `event` is reported.
pub open spec fn next_phase(phase: KickPhase, event: KickEvent, catalog: ColorCatalog) -> KickPhase {
    match phase {
        KickPhase::Sleeping => match event {
            KickEvent::Woke => KickPhase::Evaluating,
            _ => KickPhase::Finished(KickOutcome::Aborted),
        },
        KickPhase::Evaluating => match event {
            KickEvent::Roles(roles) => if catalog.covers(roles@) {
                KickPhase::Warning
            } else {
                KickPhase::Finished(KickOutcome::NoOp)
            },
            _ => KickPhase::Finished(KickOutcome::Aborted),
        },
        // Whatever became of the warning, the kick is attempted.
        KickPhase::Warning => KickPhase::Kicking,
        KickPhase::Kicking => match event {
            KickEvent::KickSucceeded => KickPhase::Finished(KickOutcome::WarnedAndKicked),
            _ => KickPhase::Finished(KickOutcome::Aborted),
        },
        KickPhase::Finished(o) => KickPhase::Finished(o),
    }
}

/// The action asked for on entering `phase`.
pub open spec fn action_for(phase: KickPhase, fire_at: u64) -> KickAction {
    match phase {
        KickPhase::Sleeping => KickAction::SleepUntil(fire_at),
        KickPhase::Evaluating => KickAction::FetchRoles,
        KickPhase::Warning => KickAction::SendWarning,
        KickPhase::Kicking => KickAction::Kick,
        KickPhase::Finished(_) => KickAction::Stop,
    }
}

/// How many more reports a check in `phase` takes at most before it ends.
pub open spec fn reports_left(phase: KickPhase) -> nat {
    match phase {
        KickPhase::Sleeping => 4,
        KickPhase::Evaluating => 3,
        KickPhase::Warning => 2,
        KickPhase::Kicking => 1,
        KickPhase::Finished(_) => 0,
    }
}

/// The phase reached from `phase` after the reports `events`, in order.
pub open spec fn run(phase: KickPhase, events: Seq<KickEvent>, catalog: ColorCatalog) -> KickPhase
    decreases events.len(),
{
    if events.len() == 0 {
        phase
    } else {
        run(next_phase(phase, events[0], catalog), events.drop_first(), catalog)
    }
}

/// How many times the reports `events`, from `phase`, make the check ask for a kick.
pub open spec fn kicks_asked(phase: KickPhase, events: Seq<KickEvent>, catalog: ColorCatalog) -> nat
    decreases events.len(),
{
    if events.len() == 0 {
        0
    } else {
        let next = next_phase(phase, events[0], catalog);
        (if next is Kicking {
            1nat
        } else {
            0nat
        }) + kicks_asked(next, events.drop_first(), catalog)
    }
}

/// A check ends in exactly one outcome: whatever is reported, it has ended
/// after at most `reports_left` reports (four for a fresh check), an ended
/// check keeps its outcome for good, and no run of reports makes it ask for
/// the kick more than once.
pub proof fn lemma_check_ends_once(phase: KickPhase, events: Seq<KickEvent>, catalog: ColorCatalog)
    ensures
        events.len() >= reports_left(phase) ==> run(phase, events, catalog) is Finished,
        phase is Finished ==> run(phase, events, catalog) == phase,
        kicks_asked(phase, events, catalog) <= 1,
        (phase is Kicking || phase is Finished) ==> kicks_asked(phase, events, catalog) == 0,
    decreases events.len(),
{
    if events.len() > 0 {
        let next = next_phase(phase, events[0], catalog);
        lemma_check_ends_once(next, events.drop_first(), catalog);
    }
}

/// Once the kick is decided, a failed warning message does not stop it: from
/// the warning, every report leads to the kick being asked for.
pub proof fn lemma_warning_failure_still_kicks(event: KickEvent, catalog: ColorCatalog, fire_at: u64)
    ensures
        next_phase(KickPhase::Warning, event, catalog) == KickPhase::Kicking,
        action_for(next_phase(KickPhase::Warning, event, catalog), fire_at) == KickAction::Kick,
{
}

/// One deferred kick check for one join.
pub struct DeferredKick {
    pub guild_id: u64,
    pub member_id: u64,
    /// Join time plus `KICK_DELAY_SECS`, in seconds.
    pub fire_at: u64,
    pub phase: KickPhase,
}

/// The check to run for a member who joined `guild_id` at `joined_at`:
/// one only where the guild has auto-kick enabled.
pub fn schedule_kick(settings: &AutoKickSettings, guild_id: u64, member_id: u64, joined_at: u64) -> (r:
    Option<DeferredKick>)
    requires
        joined_at <= u64::MAX - KICK_DELAY_SECS,
    ensures
        r is Some <==> settings.enabled_for(guild_id),
        !settings.lists(guild_id) ==> r is None,
        r matches Some(t) ==> t.guild_id == guild_id && t.member_id == member_id && t.fire_at
            == joined_at + KICK_DELAY_SECS && t.phase == KickPhase::Sleeping,
{
    if settings.is_enabled(guild_id) {
        Some(
            DeferredKick {
                guild_id,
                member_id,
                fire_at: joined_at + KICK_DELAY_SECS,
                phase: KickPhase::Sleeping,
            },
        )
    } else {
        None
    }
}

impl DeferredKick {
    /// The action that the current phase asks for.
    pub fn pending_action(&self) -> (r: KickAction)
        ensures
            r == action_for(self.phase, self.fire_at),
    {
        match self.phase {
            KickPhase::Sleeping => KickAction::SleepUntil(self.fire_at),
            KickPhase::Evaluating => KickAction::FetchRoles,
            KickPhase::Warning => KickAction::SendWarning,
            KickPhase::Kicking => KickAction::Kick,
            KickPhase::Finished(_) => KickAction::Stop,
        }
    }

    /// Whether the check has ended.
    pub fn is_finished(&self) -> (r: bool)
        ensures
            r == (self.phase is Finished),
    {
        match self.phase {
            KickPhase::Finished(_) => true,
            _ => false,
        }
    }

    /// Takes in what the runtime reports and returns the next action.
    pub fn step(&mut self, catalog: &ColorCatalog, event: &KickEvent) -> (r: KickAction)
        ensures
            final(self).phase == next_phase(old(self).phase, *event, *catalog),
            final(self).guild_id == old(self).guild_id,
            final(self).member_id == old(self).member_id,
            final(self).fire_at == old(self).fire_at,
            r == action_for(final(self).phase, final(self).fire_at),
    {
        let next = match self.phase {
            KickPhase::Sleeping => match event {
                KickEvent::Woke => KickPhase::Evaluating,
                _ => KickPhase::Finished(KickOutcome::Aborted),
            },
            KickPhase::Evaluating => match event {
                KickEvent::Roles(roles) => if catalog.only_colors(roles) {
                    KickPhase::Warning
                } else {
                    KickPhase::Finished(KickOutcome::NoOp)
                },
                _ => KickPhase::Finished(KickOutcome::Aborted),
            },
            KickPhase::Warning => KickPhase::Kicking,
            KickPhase::Kicking => match event {
                KickEvent::KickSucceeded => KickPhase::Finished(KickOutcome::WarnedAndKicked),
                _ => KickPhase::Finished(KickOutcome::Aborted),
            },
            KickPhase::Finished(o) => KickPhase::Finished(o),
        };
        self.phase = next;
        self.pending_action()
    }
}

} // verus!

use color_bot::catalog::{ColorCatalog, ColorEntry};
use color_bot::kick::{
    schedule_kick, warning_message, DeferredKick, KickAction, KickEvent, KickOutcome, KickPhase,
    KICK_DELAY_SECS, KICK_REASON,
};
use color_bot::settings::{AutoKickSettings, GuildSetting};

fn catalog() -> ColorCatalog {
    let e = |n: &str| ColorEntry { name: n.to_string(), red: 1, green: 2, blue: 3 };
    ColorCatalog::new(vec![e("Red"), e("Blue")]).unwrap()
}

fn settings() -> AutoKickSettings {
    AutoKickSettings::new(vec![
        GuildSetting { guild_id: 10, enabled: true },
        GuildSetting { guild_id: 20, enabled: false },
    ])
    .unwrap()
}

fn task() -> DeferredKick {
    schedule_kick(&settings(), 10, 99, 1000).unwrap()
}

fn roles(names: &[&str]) -> KickEvent {
    KickEvent::Roles(names.iter().map(|s| s.to_string()).collect())
}

fn run(events: Vec<KickEvent>) -> (DeferredKick, Vec<KickAction>) {
    let c = catalog();
    let mut t = task();
    let mut actions = vec![];
    for ev in events {
        actions.push(t.step(&c, &ev));
    }
    (t, actions)
}

#[test]
fn schedule_sets_fire_time() {
    let t = task();
    assert_eq!(t.guild_id, 10);
    assert_eq!(t.member_id, 99);
    assert_eq!(t.fire_at, 1000 + KICK_DELAY_SECS);
    assert_eq!(t.fire_at, 2800);
    assert_eq!(t.phase, KickPhase::Sleeping);
    assert_eq!(t.pending_action(), KickAction::SleepUntil(2800));
    assert!(!t.is_finished());
}

#[test]
fn unlisted_guild_gets_no_task() {
    assert!(schedule_kick(&settings(), 30, 99, 1000).is_none());
}

#[test]
fn disabled_guild_gets_no_task() {
    assert!(schedule_kick(&settings(), 20, 99, 1000).is_none());
    assert!(!settings().is_enabled(20));
    assert!(settings().is_enabled(10));
}

#[test]
fn duplicate_guilds_are_refused() {
    let s = AutoKickSettings::new(vec![
        GuildSetting { guild_id: 1, enabled: true },
        GuildSetting { guild_id: 1, enabled: false },
    ]);
    assert!(s.is_none());
}

#[test]
fn no_roles_leads_to_kick() {
    let (t, a) = run(vec![KickEvent::Woke, roles(&[]), KickEvent::DmSent, KickEvent::KickSucceeded]);
    assert_eq!(a, vec![KickAction::FetchRoles, KickAction::SendWarning, KickAction::Kick, KickAction::Stop]);
    assert_eq!(t.phase, KickPhase::Finished(KickOutcome::WarnedAndKicked));
    assert!(t.is_finished());
}

#[test]
fn only_catalog_role_leads_to_kick() {
    let (t, a) = run(vec![KickEvent::Woke, roles(&["Red"]), KickEvent::DmSent, KickEvent::KickSucceeded]);
    assert_eq!(a[1], KickAction::SendWarning);
    assert_eq!(t.phase, KickPhase::Finished(KickOutcome::WarnedAndKicked));
}

#[test]
fn hand_given_role_is_noop() {
    let (t, a) = run(vec![KickEvent::Woke, roles(&["Red", "Moderator"])]);
    assert_eq!(a, vec![KickAction::FetchRoles, KickAction::Stop]);
    assert_eq!(t.phase, KickPhase::Finished(KickOutcome::NoOp));
}

#[test]
fn unreadable_roles_abort() {
    let (t, a) = run(vec![KickEvent::Woke, KickEvent::RolesUnavailable]);
    assert_eq!(a[1], KickAction::Stop);
    assert_eq!(t.phase, KickPhase::Finished(KickOutcome::Aborted));
}

#[test]
fn dm_failure_still_kicks() {
    let (t, a) = run(vec![KickEvent::Woke, roles(&[]), KickEvent::DmFailed, KickEvent::KickSucceeded]);
    assert_eq!(a[2], KickAction::Kick);
    assert_eq!(t.phase, KickPhase::Finished(KickOutcome::WarnedAndKicked));
}

#[test]
fn kick_failure_aborts() {
    let (t, _) = run(vec![KickEvent::Woke, roles(&[]), KickEvent::DmSent, KickEvent::KickFailed]);
    assert_eq!(t.phase, KickPhase::Finished(KickOutcome::Aborted));
}

#[test]
fn finished_check_stays_finished_and_asks_once() {
    let (t, a) = run(vec![
        KickEvent::Woke,
        roles(&[]),
        KickEvent::DmSent,
        KickEvent::KickSucceeded,
        KickEvent::Woke,
        roles(&[]),
        KickEvent::DmSent,
    ]);
    assert_eq!(a.iter().filter(|x| **x == KickAction::Kick).count(), 1);
    assert_eq!(&a[3..], &[KickAction::Stop; 4]);
    assert_eq!(t.phase, KickPhase::Finished(KickOutcome::WarnedAndKicked));
}

#[test]
fn out_of_order_report_aborts() {
    let (t, a) = run(vec![KickEvent::DmSent]);
    assert_eq!(a, vec![KickAction::Stop]);
    assert_eq!(t.phase, KickPhase::Finished(KickOutcome::Aborted));
}

#[test]
fn warning_message_ends_with_invite() {
    let m = warning_message(&"https://example.invalid/abc".to_string());
    assert_eq!(
        m,
        "You got kicked from the server.\nPlease read the welcome channel for more information\nhttps://example.invalid/abc"
    );
    assert_eq!(KICK_REASON, "User hasn't picked a role after 30 minutes");
}

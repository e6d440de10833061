use discord_lite::api::{Guild, GuildFolder, UserSettings};
use discord_lite::ordering::{listed_guilds, order_guilds, reconcile_guilds};

fn guild(id: &str, name: &str) -> Guild {
    Guild { id: id.to_string(), name: name.to_string(), icon: None }
}

fn folder(ids: &[&str]) -> GuildFolder {
    GuildFolder { guild_ids: ids.iter().map(|s| s.to_string()).collect(), id: None, name: None }
}

fn settings(folders: Vec<GuildFolder>, positions: &[&str]) -> UserSettings {
    UserSettings {
        guild_positions: positions.iter().map(|s| s.to_string()).collect(),
        guild_folders: folders,
    }
}

fn ids(gs: &[Guild]) -> Vec<String> {
    gs.iter().map(|g| g.id.clone()).collect()
}

#[test]
fn folders_take_precedence_over_positions() {
    let gs = vec![guild("g1", "One"), guild("g2", "Two"), guild("g3", "Three")];
    let st = settings(vec![folder(&["g2", "g3"]), folder(&["g1"])], &["g1", "g2", "g3"]);
    assert_eq!(ids(&order_guilds(gs, &st)), vec!["g2", "g3", "g1"]);
}

#[test]
fn flat_positions_used_without_folders_unranked_last() {
    let gs = vec![guild("a", "A"), guild("b", "B"), guild("c", "C")];
    let st = settings(vec![], &["b", "a"]);
    assert_eq!(ids(&order_guilds(gs, &st)), vec!["b", "a", "c"]);
}

#[test]
fn empty_folders_fall_back_to_positions() {
    let gs = vec![guild("a", "A"), guild("b", "B")];
    let st = settings(vec![folder(&[])], &["b", "a"]);
    assert_eq!(ids(&order_guilds(gs, &st)), vec!["b", "a"]);
}

#[test]
fn missing_preference_keeps_order() {
    let gs = vec![guild("z", "Z"), guild("y", "Y"), guild("x", "X")];
    assert_eq!(ids(&reconcile_guilds(gs, None)), vec!["z", "y", "x"]);
}

#[test]
fn reconcile_with_preference_sorts() {
    let gs = vec![guild("z", "Z"), guild("y", "Y"), guild("x", "X")];
    let st = settings(vec![folder(&["x"])], &[]);
    assert_eq!(ids(&reconcile_guilds(gs, Some(&st))), vec!["x", "z", "y"]);
}

#[test]
fn empty_preference_keeps_order() {
    let gs = vec![guild("q", "Q"), guild("p", "P")];
    let st = settings(vec![], &[]);
    assert_eq!(ids(&order_guilds(gs, &st)), vec!["q", "p"]);
}

#[test]
fn duplicate_ids_first_occurrence_wins() {
    let gs = vec![guild("a", "A"), guild("b", "B")];
    let st = settings(vec![folder(&["b", "a"]), folder(&["a", "b"])], &[]);
    assert_eq!(ids(&order_guilds(gs, &st)), vec!["b", "a"]);
}

#[test]
fn ordering_is_permutation_idempotent_and_stable() {
    let gs = vec![
        guild("u1", "U1"),
        guild("r2", "R2"),
        guild("u2", "U2"),
        guild("r1", "R1"),
        guild("u3", "U3"),
    ];
    let st = settings(vec![folder(&["r1", "r2"])], &[]);
    let once = order_guilds(gs, &st);
    assert_eq!(ids(&once), vec!["r1", "r2", "u1", "u2", "u3"]);
    let mut sorted_ids = ids(&once);
    sorted_ids.sort();
    assert_eq!(sorted_ids, vec!["r1", "r2", "u1", "u2", "u3"]);
    let twice = order_guilds(once.clone(), &st);
    assert_eq!(ids(&twice), ids(&once));
}

#[test]
fn blank_guild_is_ranked_but_not_listed() {
    let gs = vec![guild("a", "Alpha"), guild("w", "   "), guild("b", "Beta")];
    let st = settings(vec![folder(&["b", "w", "a"])], &[]);
    let ordered = order_guilds(gs, &st);
    assert_eq!(ids(&ordered), vec!["b", "w", "a"]);
    assert_eq!(listed_guilds(&ordered), vec![0, 2]);
}

#[test]
fn empty_and_tab_names_not_listed() {
    let gs = vec![guild("a", ""), guild("b", "\t\n"), guild("c", " c ")];
    assert_eq!(listed_guilds(&gs), vec![2]);
}

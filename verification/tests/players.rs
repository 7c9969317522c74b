use ping_2_pong::player::{create_player, delete_player, get_all_revisions_for_player,
    get_latest_player, get_original_player, get_player_by_name, is_player_name_unique,
    player_exists, update_player};
use ping_2_pong::store::Store;
use ping_2_pong::types::{AgentKey, EntryTypes, Player, UpdatePlayerInput};
use ping_2_pong::Error;

const T0: i64 = 1_700_000_000_000_000;

fn profile(key: AgentKey, name: &str) -> Player {
    Player { player_key: key, player_name: name.to_string() }
}

#[test]
fn one_profile_per_agent() {
    // Registering twice for one agent fails with Conflict even though the
    // second name differs.
    let mut store = Store::new();
    let a = AgentKey(1);
    create_player(&mut store, a, T0, profile(a, "x")).expect("first registration succeeds");
    let second = create_player(&mut store, a, T0 + 1, profile(a, "y"));
    assert_eq!(second.unwrap_err(), Error::Conflict);
}

#[test]
fn names_are_unique_ignoring_ascii_case() {
    let mut store = Store::new();
    let a = AgentKey(1);
    let b = AgentKey(2);
    create_player(&mut store, a, T0, profile(a, "Alice")).unwrap();
    assert!(!is_player_name_unique(&store, "alice"));
    assert!(!is_player_name_unique(&store, "ALICE"));
    assert!(is_player_name_unique(&store, "bob"));
    let clash = create_player(&mut store, b, T0, profile(b, "aLiCe"));
    assert_eq!(clash.unwrap_err(), Error::Conflict);
}

#[test]
fn registration_enforces_identity_and_name_shape() {
    let mut store = Store::new();
    let a = AgentKey(1);
    let b = AgentKey(2);
    // Only the player themselves may register their profile.
    let forged = create_player(&mut store, b, T0, profile(a, "alice"));
    assert_eq!(forged.unwrap_err(), Error::Unauthorized);
    // A blank name is rejected as malformed.
    let blank = create_player(&mut store, a, T0, profile(a, "   "));
    assert_eq!(blank.unwrap_err(), Error::MalformedData);
    // A name longer than fifty bytes is rejected as malformed.
    let long_name = "abcdefghijabcdefghijabcdefghijabcdefghijabcdefghijX";
    let long = create_player(&mut store, a, T0, profile(a, long_name));
    assert_eq!(long.unwrap_err(), Error::MalformedData);
}

#[test]
fn lookup_by_name_finds_the_original_record() {
    let mut store = Store::new();
    let a = AgentKey(1);
    let rec = create_player(&mut store, a, T0, profile(a, "Alice")).unwrap();
    let found = get_player_by_name(&store, "alice").expect("registered name resolves");
    assert_eq!(found.hash, rec.hash);
    assert!(get_player_by_name(&store, "nobody").is_none());
}

#[test]
fn profile_revisions_resolve_to_the_latest_update() {
    let mut store = Store::new();
    let a = AgentKey(1);
    let rec = create_player(&mut store, a, T0, profile(a, "alice")).unwrap();
    let updated = update_player(
        &mut store,
        a,
        T0 + 1_000_000,
        UpdatePlayerInput {
            original_player_hash: rec.hash,
            previous_player_hash: rec.hash,
            updated_player: profile(a, "alicia"),
        },
    )
    .expect("owner may update");
    // Created then updated once: latest resolution returns the update.
    let latest = get_latest_player(&store, rec.hash).unwrap().unwrap();
    assert_eq!(latest.hash, updated.hash);
    match &latest.entry {
        EntryTypes::Player(p) => assert_eq!(p.player_name, "alicia"),
        _ => panic!("expected a profile entry"),
    }
    // Original resolution keeps serving the creation record.
    let original = get_original_player(&store, rec.hash).unwrap();
    assert_eq!(original.hash, rec.hash);
    let revisions = get_all_revisions_for_player(&store, rec.hash).unwrap();
    assert_eq!(revisions.len(), 2);
    assert_eq!(revisions[0].hash, rec.hash);
    assert_eq!(revisions[1].hash, updated.hash);
}

#[test]
fn update_rules_are_enforced() {
    let mut store = Store::new();
    let a = AgentKey(1);
    let b = AgentKey(2);
    let rec_a = create_player(&mut store, a, T0, profile(a, "alice")).unwrap();
    create_player(&mut store, b, T0, profile(b, "bob")).unwrap();
    // Nobody may rename another player's profile.
    let foreign = update_player(
        &mut store,
        b,
        T0,
        UpdatePlayerInput {
            original_player_hash: rec_a.hash,
            previous_player_hash: rec_a.hash,
            updated_player: profile(a, "mallory"),
        },
    );
    assert_eq!(foreign.unwrap_err(), Error::Unauthorized);
    // A rename onto a taken name is a conflict.
    let taken = update_player(
        &mut store,
        a,
        T0,
        UpdatePlayerInput {
            original_player_hash: rec_a.hash,
            previous_player_hash: rec_a.hash,
            updated_player: profile(a, "bob"),
        },
    );
    assert_eq!(taken.unwrap_err(), Error::Conflict);
    // The identity key never changes.
    let rekeyed = update_player(
        &mut store,
        a,
        T0,
        UpdatePlayerInput {
            original_player_hash: rec_a.hash,
            previous_player_hash: rec_a.hash,
            updated_player: profile(AgentKey(9), "alice"),
        },
    );
    assert_eq!(rekeyed.unwrap_err(), Error::InvalidState);
}

#[test]
fn errors_carry_cause_strings() {
    assert_eq!(Error::NotFound.cause(), "not found");
    assert_eq!(Error::InvalidState.cause(), "invalid state");
    assert_eq!(Error::Unauthorized.cause(), "unauthorized");
    assert_eq!(Error::Conflict.cause(), "conflict");
    assert_eq!(Error::MalformedData.cause(), "malformed data");
}

#[test]
fn delete_removes_profile_and_frees_lookups() {
    let mut store = Store::new();
    let a = AgentKey(1);
    let b = AgentKey(2);
    let rec = create_player(&mut store, a, T0, profile(a, "alice")).unwrap();
    // Only the owner may delete.
    assert_eq!(delete_player(&mut store, b, T0, rec.hash).unwrap_err(), Error::Unauthorized);
    delete_player(&mut store, a, T0 + 1, rec.hash).expect("owner may delete");
    assert!(!player_exists(&store, a));
    assert!(get_player_by_name(&store, "alice").is_none());
    // The history stays readable; a missing profile is NotFound.
    assert!(get_original_player(&store, rec.hash).is_some());
    assert_eq!(delete_player(&mut store, a, T0, 999).unwrap_err(), Error::NotFound);
}

use matchmaking::dht::{entry_address, same_address, Dht, ZomeError};
use matchmaking::entries::{Entry, Game, GameProposal};
use matchmaking::lifecycle::{
    accept_proposal, check_responses, create_proposal, ensure_exists, genesis, get_proposals, init,
    proposals_anchor_label, remove_proposal, resolve, validate_agent,
};
use matchmaking::validation::{LinkType, Rejection};

fn s(x: &str) -> String {
    x.to_string()
}

#[test]
fn setup_callbacks_succeed() {
    assert_eq!(genesis(), Ok(()));
    assert_eq!(init(), Ok(()));
    assert_eq!(validate_agent(&s("alice")), Ok(()));
}

#[test]
fn resolve_is_deterministic_and_needs_no_write() {
    let a = resolve(&s("game_proposals"));
    let b = resolve(&s("game_proposals"));
    assert!(same_address(&a, &b));
    assert!(!same_address(&a, &resolve(&s("other_label"))));
    let dht = Dht::new();
    assert!(dht.get_entry(&a).is_none());
    assert_eq!(proposals_anchor_label(), "game_proposals");
}

#[test]
fn ensure_exists_twice_keeps_one_anchor() {
    let mut dht = Dht::new();
    let label = s("game_proposals");
    let a1 = ensure_exists(&mut dht, &s("alice"), &label).unwrap();
    assert_eq!(dht.entry_count(), 1);
    let a2 = ensure_exists(&mut dht, &s("bob"), &label).unwrap();
    assert_eq!(dht.entry_count(), 1);
    assert!(same_address(&a1, &a2));
    assert!(same_address(&a1, &resolve(&label)));
    assert!(dht.get_entry(&a1).is_some());
}

#[test]
fn create_then_list_round_trip() {
    let mut dht = Dht::new();
    let x = create_proposal(&mut dht, &s("alice"), s("hello"), Some(42)).unwrap();
    assert_eq!(dht.entry_count(), 2);
    assert_eq!(dht.link_count(), 1);
    let listed = get_proposals(&dht);
    assert_eq!(listed.len(), 1);
    assert_eq!(listed[0].agent, "alice");
    assert_eq!(listed[0].message, "hello");
    assert_eq!(listed[0].timestamp, Some(42));
    let links = dht.get_links(&resolve(&s("game_proposals")), LinkType::HasProposal);
    assert_eq!(links.len(), 1);
    assert!(same_address(&links[0], &x));
}

#[test]
fn create_without_timestamp() {
    let mut dht = Dht::new();
    create_proposal(&mut dht, &s("alice"), s("anyone?"), None).unwrap();
    let listed = get_proposals(&dht);
    assert_eq!(listed.len(), 1);
    assert_eq!(listed[0].timestamp, None);
}

#[test]
fn list_on_empty_store_is_empty() {
    let dht = Dht::new();
    assert!(get_proposals(&dht).is_empty());
}

#[test]
fn two_proposals_share_one_anchor() {
    let mut dht = Dht::new();
    create_proposal(&mut dht, &s("alice"), s("one"), Some(1)).unwrap();
    create_proposal(&mut dht, &s("bob"), s("two"), Some(2)).unwrap();
    assert_eq!(dht.entry_count(), 3);
    let mut messages: Vec<String> = get_proposals(&dht).into_iter().map(|p| p.message).collect();
    messages.sort();
    assert_eq!(messages, vec![s("one"), s("two")]);
}

#[test]
fn accept_makes_game_with_acceptor_first() {
    let mut dht = Dht::new();
    let p = create_proposal(&mut dht, &s("alice"), s("looking for game"), None).unwrap();
    let g = accept_proposal(&mut dht, &s("bob"), &p, 100).unwrap();
    let games = check_responses(&dht, &p);
    assert_eq!(games.len(), 1);
    assert_eq!(games[0].player_1, "bob");
    assert_eq!(games[0].player_2, "alice");
    assert_eq!(games[0].created_at, 100);
    match dht.get_entry(&g) {
        Some(Entry::Game(game)) => assert_eq!(game.created_at, 100),
        _ => panic!("the game is not readable at its address"),
    }
}

#[test]
fn two_agents_accept_the_same_proposal() {
    let mut dht = Dht::new();
    let p = create_proposal(&mut dht, &s("agent_a"), s("looking for game"), None).unwrap();
    let g1 = accept_proposal(&mut dht, &s("agent_b"), &p, 100).unwrap();
    let g2 = accept_proposal(&mut dht, &s("agent_c"), &p, 101).unwrap();
    assert!(!same_address(&g1, &g2));
    let mut games: Vec<(String, u32)> =
        check_responses(&dht, &p).into_iter().map(|g| (g.player_1, g.created_at)).collect();
    games.sort();
    assert_eq!(games, vec![(s("agent_b"), 100), (s("agent_c"), 101)]);
}

#[test]
fn accept_nonexistent_is_not_found_and_commits_nothing() {
    let mut dht = Dht::new();
    let absent = Entry::Proposal(GameProposal { agent: s("zed"), message: s("gone"), timestamp: None });
    let addr = entry_address(&absent);
    assert_eq!(accept_proposal(&mut dht, &s("bob"), &addr, 5).unwrap_err(), ZomeError::NotFound);
    assert_eq!(dht.entry_count(), 0);
    assert_eq!(dht.link_count(), 0);
}

#[test]
fn accept_withdrawn_is_not_found_and_commits_nothing() {
    let mut dht = Dht::new();
    let p = create_proposal(&mut dht, &s("alice"), s("hi"), Some(1)).unwrap();
    remove_proposal(&mut dht, &s("alice"), &p).unwrap();
    let entries = dht.entry_count();
    let links = dht.link_count();
    assert_eq!(accept_proposal(&mut dht, &s("bob"), &p, 9).map(|_| ()), Err(ZomeError::NotFound));
    assert_eq!(dht.entry_count(), entries);
    assert_eq!(dht.link_count(), links);
    assert!(check_responses(&dht, &p).is_empty());
}

#[test]
fn accept_a_game_address_is_not_found() {
    let mut dht = Dht::new();
    let p = create_proposal(&mut dht, &s("alice"), s("hi"), Some(1)).unwrap();
    let g = accept_proposal(&mut dht, &s("bob"), &p, 2).unwrap();
    assert_eq!(accept_proposal(&mut dht, &s("carol"), &g, 3).map(|_| ()), Err(ZomeError::NotFound));
}

#[test]
fn withdrawn_proposal_is_not_listed() {
    let mut dht = Dht::new();
    let p = create_proposal(&mut dht, &s("alice"), s("first"), Some(1)).unwrap();
    create_proposal(&mut dht, &s("bob"), s("second"), Some(2)).unwrap();
    let t = remove_proposal(&mut dht, &s("bob"), &p).unwrap();
    assert!(t.tombstone);
    assert!(dht.get_entry(&p).is_none());
    let listed = get_proposals(&dht);
    assert_eq!(listed.len(), 1);
    assert_eq!(listed[0].message, "second");
}

#[test]
fn withdraw_twice_is_not_found() {
    let mut dht = Dht::new();
    let p = create_proposal(&mut dht, &s("alice"), s("x"), None).unwrap();
    remove_proposal(&mut dht, &s("alice"), &p).unwrap();
    assert_eq!(remove_proposal(&mut dht, &s("alice"), &p).map(|_| ()), Err(ZomeError::NotFound));
}

#[test]
fn commit_by_impersonator_is_rejected() {
    let mut dht = Dht::new();
    let entry = Entry::Proposal(GameProposal { agent: s("alice"), message: s("fake"), timestamp: None });
    let r = dht.commit_entry(&entry, &vec![s("mallory")]);
    assert_eq!(r.map(|_| ()), Err(ZomeError::Validation(Rejection::ForeignAuthor)));
    assert_eq!(dht.entry_count(), 0);
    let ok = dht.commit_entry(&entry, &vec![s("alice")]);
    assert!(ok.is_ok());
    assert_eq!(dht.entry_count(), 1);
}

#[test]
fn undeclared_link_is_rejected_by_store() {
    let mut dht = Dht::new();
    let p = create_proposal(&mut dht, &s("alice"), s("x"), None).unwrap();
    let anchor = resolve(&s("game_proposals"));
    let r = dht.link_entries(&p, &anchor, LinkType::HasProposal, &s(""));
    assert_eq!(r, Err(ZomeError::Validation(Rejection::UndeclaredLink)));
    assert_eq!(dht.link_count(), 1);
}

#[test]
fn link_to_uncommitted_entry_is_not_found() {
    let mut dht = Dht::new();
    let anchor = ensure_exists(&mut dht, &s("alice"), &s("game_proposals")).unwrap();
    let missing = entry_address(&Entry::Proposal(GameProposal { agent: s("a"), message: s("m"), timestamp: None }));
    let r = dht.link_entries(&anchor, &missing, LinkType::HasProposal, &s(""));
    assert_eq!(r, Err(ZomeError::NotFound));
    assert_eq!(dht.link_count(), 0);
}

#[test]
fn game_entries_compare_by_content() {
    let g = Game { player_1: s("b"), player_2: s("a"), created_at: 1 };
    let a1 = entry_address(&Entry::Game(g.clone()));
    let a2 = entry_address(&Entry::Game(g));
    assert!(same_address(&a1, &a2));
}

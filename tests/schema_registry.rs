use matchmaking::entries::EntryKind;
use matchmaking::schema::{
    anchor_def, definitions_of, game_def, game_proposal_def, LinkDirection, Sharing,
};
use matchmaking::validation::LinkType;

#[test]
fn proposal_definition() {
    let d = game_proposal_def();
    assert_eq!(d.kind, EntryKind::Proposal);
    assert_eq!(d.name, "game_proposal");
    assert_eq!(d.sharing, Sharing::Public);
    assert!(d.links.is_empty());
}

#[test]
fn game_definition_links_from_proposal() {
    let d = game_def();
    assert_eq!(d.kind, EntryKind::Game);
    assert_eq!(d.name, "game");
    assert_eq!(d.links.len(), 1);
    assert_eq!(d.links[0].direction, LinkDirection::From);
    assert_eq!(d.links[0].other, EntryKind::Proposal);
    assert_eq!(d.links[0].link_type, LinkType::FromProposal);
}

#[test]
fn anchor_definition_links_to_proposal() {
    let d = anchor_def();
    assert_eq!(d.kind, EntryKind::Anchor);
    assert_eq!(d.name, "anchor");
    assert_eq!(d.links.len(), 1);
    assert_eq!(d.links[0].direction, LinkDirection::To);
    assert_eq!(d.links[0].other, EntryKind::Proposal);
    assert_eq!(d.links[0].link_type, LinkType::HasProposal);
}

#[test]
fn all_definitions_in_order() {
    let defs = definitions_of();
    let names: Vec<&str> = defs.iter().map(|d| d.name.as_str()).collect();
    assert_eq!(names, vec!["game_proposal", "game", "anchor"]);
    assert!(defs.iter().all(|d| d.sharing == Sharing::Public));
}

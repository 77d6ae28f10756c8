use matchmaking::entries::{Entry, EntryKind, Game, GameProposal};
use matchmaking::validation::{
    validate_entry, validate_link, validate_proposal, LinkType, Operation, Rejection,
};

fn proposal(agent: &str) -> GameProposal {
    GameProposal { agent: agent.to_string(), message: "looking for game".to_string(), timestamp: Some(7) }
}

#[test]
fn author_may_create_own_proposal() {
    let p = proposal("alice");
    assert_eq!(validate_proposal(Operation::Create, &p, &vec!["alice".to_string()]), Ok(()));
}

#[test]
fn other_agent_cannot_author_proposal() {
    let p = proposal("alice");
    let r = validate_proposal(Operation::Create, &p, &vec!["bob".to_string()]);
    assert_eq!(r, Err(Rejection::ForeignAuthor));
    assert_eq!(r.unwrap_err().message(), "Cannot author a proposal from another agent");
}

#[test]
fn author_among_several_signers_may_create() {
    let p = proposal("alice");
    let sources = vec!["carol".to_string(), "alice".to_string()];
    assert_eq!(validate_proposal(Operation::Create, &p, &sources), Ok(()));
}

#[test]
fn no_signers_cannot_create() {
    let p = proposal("alice");
    assert_eq!(validate_proposal(Operation::Create, &p, &vec![]), Err(Rejection::ForeignAuthor));
}

#[test]
fn modify_is_rejected_even_for_author() {
    let p = proposal("alice");
    let r = validate_proposal(Operation::Modify, &p, &vec!["alice".to_string()]);
    assert_eq!(r, Err(Rejection::ModifyForbidden));
    assert_eq!(r.unwrap_err().message(), "Cannot modify, only create and delete");
    assert_eq!(
        validate_proposal(Operation::Modify, &p, &vec!["bob".to_string()]),
        Err(Rejection::ModifyForbidden)
    );
}

#[test]
fn delete_is_accepted_from_anyone() {
    let p = proposal("alice");
    assert_eq!(validate_proposal(Operation::Delete, &p, &vec!["mallory".to_string()]), Ok(()));
}

#[test]
fn games_and_anchors_are_always_accepted() {
    let g = Entry::Game(Game { player_1: "bob".to_string(), player_2: "alice".to_string(), created_at: 3 });
    let a = Entry::Anchor("game_proposals".to_string());
    for op in [Operation::Create, Operation::Modify, Operation::Delete] {
        assert_eq!(validate_entry(op, &g, &vec![]), Ok(()));
        assert_eq!(validate_entry(op, &a, &vec![]), Ok(()));
    }
    let p = Entry::Proposal(proposal("alice"));
    assert_eq!(validate_entry(Operation::Create, &p, &vec!["bob".to_string()]), Err(Rejection::ForeignAuthor));
}

#[test]
fn declared_links_validate() {
    assert_eq!(validate_link(LinkType::HasProposal, EntryKind::Anchor, EntryKind::Proposal), Ok(()));
    assert_eq!(validate_link(LinkType::FromProposal, EntryKind::Proposal, EntryKind::Game), Ok(()));
}

#[test]
fn undeclared_links_are_rejected() {
    assert_eq!(
        validate_link(LinkType::HasProposal, EntryKind::Proposal, EntryKind::Anchor),
        Err(Rejection::UndeclaredLink)
    );
    assert_eq!(
        validate_link(LinkType::FromProposal, EntryKind::Anchor, EntryKind::Proposal),
        Err(Rejection::UndeclaredLink)
    );
    assert_eq!(
        validate_link(LinkType::HasProposal, EntryKind::Anchor, EntryKind::Game),
        Err(Rejection::UndeclaredLink)
    );
}

#[test]
fn link_type_tokens() {
    assert_eq!(LinkType::HasProposal.name(), "has_proposal");
    assert_eq!(LinkType::FromProposal.name(), "from_proposal");
    assert_eq!(LinkType::from_name(&"has_proposal".to_string()), Some(LinkType::HasProposal));
    assert_eq!(LinkType::from_name(&"from_proposal".to_string()), Some(LinkType::FromProposal));
    assert_eq!(LinkType::from_name(&"game_from".to_string()), None);
    assert_eq!(LinkType::from_name(&"".to_string()), None);
}

use yrust_chain::contracts::dao::{DAOGovernance, ProposalState};

#[test]
fn test_propose_and_vote() {
    let mut dao = DAOGovernance::new("GOV".to_string());
    dao.mint("alice", 2000);
    let id = dao.propose("alice", "test", "desc", "target", 0, vec![], 100).unwrap();
    dao.cast_vote("alice", id, 1, 150).unwrap();
    let proposal = dao.get_proposal(id).unwrap();
    assert_eq!(proposal.for_votes, 2000);
}

#[test]
fn test_proposal_threshold() {
    let mut dao = DAOGovernance::new("GOV".to_string());
    dao.mint("alice", 500);
    let result = dao.propose("alice", "test", "desc", "target", 0, vec![], 100);
    assert!(result.is_err());
}

#[test]
fn dao_full_lifecycle() {
    let mut dao = DAOGovernance::new("GOV".to_string());
    dao.mint("Alice", 5000);
    dao.mint("Bob", 3000);
    dao.mint("Charlie", 2000);
    dao.delegate("Alice", "Bob");
    assert_eq!(dao.get_votes("Bob"), 8000);
    let id = dao
        .propose("Bob", "t", "d", "treasury", 0, vec![1, 2, 3], 100)
        .unwrap();
    assert_eq!(dao.state(id, 100), Ok(ProposalState::Pending));
    assert_eq!(dao.state(id, 150), Ok(ProposalState::Active));
    dao.cast_vote("Bob", id, 1, 150).unwrap();
    dao.cast_vote("Charlie", id, 0, 160).unwrap();
    assert_eq!(dao.cast_vote("Bob", id, 1, 170), Err("已经投过票了".to_string()));
    assert_eq!(dao.state(id, 250), Ok(ProposalState::Succeeded));
    assert_eq!(dao.execute(id, 250), Err("提案未进入时间锁".to_string()));
    dao.queue(id, 250).unwrap();
    assert_eq!(dao.execute(id, 299), Err("时间锁未到期".to_string()));
    dao.execute(id, 350).unwrap();
    assert_eq!(dao.state(id, 400), Ok(ProposalState::Executed));
    assert_eq!(dao.cancel(id, "Bob"), Err("已执行，无法取消".to_string()));
}

#[test]
fn dao_threshold_message() {
    let mut dao = DAOGovernance::new("GOV".to_string());
    dao.mint("alice", 500);
    assert_eq!(
        dao.propose("alice", "t", "d", "x", 0, vec![], 1),
        Err("需要 1000 代币才能创建提案，当前只有 500".to_string())
    );
}

use warp_controller::condition::{BlockExpr, Condition, Expr, NumOp};
use warp_controller::error::ContractError;
use warp_controller::job::{Account, Job, JobStatus};
use warp_controller::state::{
    AccountMap, JobIndexes, JobMap, JobOrder, ACCOUNTS, FINISHED_JOBS, PENDING_JOBS,
    QUERY_PAGE_SIZE,
};

fn job(id: u64, reward: u128, time: u64) -> Job {
    Job {
        id,
        owner: format!("owner{}", id),
        last_update_time: time,
        name: format!("job {}", id),
        status: JobStatus::Pending,
        condition: Condition::Expr(Expr::BlockHeight(BlockExpr { comparator: 100, op: NumOp::Gt })),
        msgs: vec![cosmwasm_std::CosmosMsg::Bank(cosmwasm_std::BankMsg::Send {
            to_address: format!("payee{}", id),
            amount: vec![cosmwasm_std::coin(reward, "uluna")],
        })],
        reward,
    }
}

fn account(owner: &str, address: &str) -> Account {
    Account { owner: owner.to_string(), account: address.to_string() }
}

fn ids(page: &[&Job]) -> Vec<u64> {
    page.iter().map(|job| job.id).collect()
}

#[test]
fn the_collections_have_their_names() {
    let pending = PENDING_JOBS();
    assert_eq!(pending.namespace(), "pending_jobs");
    assert_eq!(
        pending.idx(),
        &JobIndexes {
            reward: "pending_jobs__reward".to_string(),
            publish_time: "pending_jobs__publish_timestamp".to_string(),
        }
    );
    assert_eq!(pending.len(), 0);
    let finished = FINISHED_JOBS();
    assert_eq!(finished.namespace(), "finished_jobs");
    assert_eq!(finished.idx().reward, "finished_jobs__reward");
    assert_eq!(finished.idx().publish_time, "finished_jobs__publish_timestamp");
    let accounts = ACCOUNTS();
    assert_eq!(accounts.namespace(), "accounts");
    assert_eq!(accounts.idx().account, "accounts__account");
    assert_eq!(QUERY_PAGE_SIZE, 50);
}

#[test]
fn a_saved_job_is_read_back_field_for_field() {
    let mut jobs = PENDING_JOBS();
    jobs.save(job(7, 50, 1_000));
    assert!(jobs.has(7));
    assert_eq!(jobs.may_load(7), Some(&job(7, 50, 1_000)));
    assert_eq!(jobs.load(7), Ok(&job(7, 50, 1_000)));
    let read = jobs.load(7).unwrap();
    assert_eq!(read.id, 7);
    assert_eq!(read.owner, "owner7");
    assert_eq!(read.last_update_time, 1_000);
    assert_eq!(read.name, "job 7");
    assert_eq!(read.status, JobStatus::Pending);
    assert_eq!(read.condition, job(7, 50, 1_000).condition);
    assert_eq!(read.msgs, job(7, 50, 1_000).msgs);
    assert_eq!(read.reward, 50);
}

#[test]
fn an_absent_job_is_not_found() {
    let mut jobs = PENDING_JOBS();
    jobs.save(job(7, 50, 1_000));
    assert!(!jobs.has(8));
    assert_eq!(jobs.may_load(8), None);
    assert_eq!(jobs.load(8), Err(ContractError::JobNotFound));
    assert_eq!(jobs.remove(8), None);
    assert_eq!(jobs.len(), 1);
}

#[test]
fn saving_under_a_used_id_replaces_the_job() {
    let mut jobs = PENDING_JOBS();
    jobs.save(job(1, 10, 5));
    jobs.save(job(2, 20, 6));
    jobs.save(job(1, 30, 7));
    assert_eq!(jobs.len(), 2);
    assert_eq!(jobs.load(1), Ok(&job(1, 30, 7)));
    assert_eq!(jobs.load(2), Ok(&job(2, 20, 6)));
}

#[test]
fn a_removed_job_is_handed_over_and_gone() {
    let mut jobs = PENDING_JOBS();
    jobs.save(job(1, 10, 5));
    jobs.save(job(2, 20, 6));
    jobs.save(job(3, 30, 7));
    assert_eq!(jobs.remove(2), Some(job(2, 20, 6)));
    assert!(!jobs.has(2));
    assert_eq!(jobs.len(), 2);
    assert_eq!(jobs.load(1), Ok(&job(1, 10, 5)));
    assert_eq!(jobs.load(3), Ok(&job(3, 30, 7)));
    assert_eq!(jobs.remove(2), None);
}

#[test]
fn places_in_the_orderings() {
    let j = job(9, 50, 1_234);
    assert_eq!(JobIndexes::key(&j, JobOrder::Reward), (50, 9));
    assert_eq!(JobIndexes::key(&j, JobOrder::PublishTime), (1_234, 9));
}

#[test]
fn jobs_are_listed_by_reward_then_id() {
    let mut jobs = PENDING_JOBS();
    jobs.save(job(1, 50, 9));
    jobs.save(job(2, 10, 8));
    jobs.save(job(3, 50, 7));
    jobs.save(job(4, 30, 6));
    jobs.save(job(5, 10, 5));
    assert_eq!(ids(&jobs.range(JobOrder::Reward, None, 50)), vec![2, 5, 4, 1, 3]);
    assert_eq!(ids(&jobs.range(JobOrder::Reward, None, 2)), vec![2, 5]);
    assert_eq!(ids(&jobs.range(JobOrder::Reward, Some((10, 5)), 2)), vec![4, 1]);
    assert_eq!(ids(&jobs.range(JobOrder::Reward, Some((50, 1)), 2)), vec![3]);
    assert_eq!(ids(&jobs.range(JobOrder::Reward, Some((50, 3)), 2)), Vec::<u64>::new());
    assert_eq!(ids(&jobs.range(JobOrder::Reward, Some((10, 3)), 50)), vec![5, 4, 1, 3]);
    assert_eq!(ids(&jobs.range(JobOrder::Reward, None, 0)), Vec::<u64>::new());
}

#[test]
fn jobs_are_listed_by_time_then_id() {
    let mut jobs = FINISHED_JOBS();
    jobs.save(job(1, 50, 9));
    jobs.save(job(2, 10, 7));
    jobs.save(job(3, 50, 7));
    jobs.save(job(4, 30, 6));
    assert_eq!(ids(&jobs.range(JobOrder::PublishTime, None, 50)), vec![4, 2, 3, 1]);
    assert_eq!(ids(&jobs.range(JobOrder::PublishTime, Some((7, 2)), 1)), vec![3]);
    assert_eq!(ids(&jobs.range(JobOrder::PublishTime, Some((7, 0)), 50)), vec![2, 3, 1]);
}

#[test]
fn jobs_of_equal_reward_are_both_listed() {
    let mut jobs = PENDING_JOBS();
    jobs.save(job(1, 50, 9));
    jobs.save(job(2, 50, 9));
    let page = jobs.range(JobOrder::Reward, None, QUERY_PAGE_SIZE);
    assert_eq!(ids(&page), vec![1, 2]);
    assert_eq!(page[0], &job(1, 50, 9));
    assert_eq!(page[1], &job(2, 50, 9));
    let second = jobs.range(JobOrder::Reward, Some((50, 1)), QUERY_PAGE_SIZE);
    assert_eq!(ids(&second), vec![2]);
}

#[test]
fn an_empty_collection_has_empty_pages() {
    let jobs = PENDING_JOBS();
    assert!(jobs.range(JobOrder::Reward, None, 50).is_empty());
    assert!(jobs.range(JobOrder::PublishTime, Some((1, 1)), 50).is_empty());
}

#[test]
fn accounts_are_kept_under_their_owner() {
    let mut accounts = ACCOUNTS();
    assert!(!accounts.has(&"alice".to_string()));
    assert_eq!(accounts.save(account("alice", "proxy-a")), Ok(()));
    assert_eq!(accounts.save(account("bob", "proxy-b")), Ok(()));
    assert!(accounts.has(&"alice".to_string()));
    assert_eq!(accounts.may_load(&"alice".to_string()), Some(&account("alice", "proxy-a")));
    assert_eq!(accounts.may_load(&"bob".to_string()), Some(&account("bob", "proxy-b")));
    assert_eq!(accounts.may_load(&"carol".to_string()), None);
    assert_eq!(accounts.may_load(&"proxy-a".to_string()), None);
}

#[test]
fn accounts_are_found_by_their_address() {
    let mut accounts = AccountMap::new("accounts", "accounts__account");
    accounts.save(account("alice", "proxy-a")).unwrap();
    accounts.save(account("bob", "proxy-b")).unwrap();
    assert_eq!(accounts.load_by_account(&"proxy-b".to_string()), Some(&account("bob", "proxy-b")));
    assert_eq!(accounts.load_by_account(&"bob".to_string()), None);
}

#[test]
fn an_owner_has_one_account_and_an_address_one_owner() {
    let mut accounts = ACCOUNTS();
    accounts.save(account("alice", "proxy-a")).unwrap();
    assert_eq!(
        accounts.save(account("alice", "proxy-z")),
        Err(ContractError::AccountAlreadyExists)
    );
    assert_eq!(
        accounts.save(account("zed", "proxy-a")),
        Err(ContractError::AccountAlreadyExists)
    );
    assert_eq!(accounts.may_load(&"alice".to_string()), Some(&account("alice", "proxy-a")));
    assert_eq!(accounts.may_load(&"zed".to_string()), None);
    assert_eq!(accounts.load_by_account(&"proxy-z".to_string()), None);
}

#[test]
fn a_job_map_can_be_made_under_any_name() {
    let jobs = JobMap::new("jobs", "jobs__reward", "jobs__time");
    assert_eq!(jobs.namespace(), "jobs");
    assert_eq!(jobs.idx().reward, "jobs__reward");
    assert_eq!(jobs.idx().publish_time, "jobs__time");
}

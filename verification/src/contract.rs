use vstd::prelude::*;
use crate::condition::Condition;
use crate::error::{AckPart, ContractError};
use crate::host::{addr_validate, Deps, Env};
use crate::job::{Account, Config, Job, JobStatus, State};
use crate::state::{
    address_occurs, distinct_accounts, distinct_ids, is_page, joined, lemma_pages_list_every_job,
    listed, pages_follow, AccountMap, JobKey, JobMap, JobOrder, ACCOUNTS, FINISHED_JOBS,
    PENDING_JOBS, QUERY_PAGE_SIZE,
};
use crate::util::condition::{cond_outcomes, query_text, resolve_cond, text_lookup};
use cosmwasm_std::{CosmosMsg, QueryRequest};
use vstd::string::StringExecFns;

verus! {

/// Who sent a message.
#[derive(Debug, PartialEq, Eq)]
pub struct MessageInfo {
    pub sender: String,
}

/// The settings to begin with. Without an owner, the sender is the owner.
#[derive(Debug, PartialEq, Eq)]
pub struct InstantiateMsg {
    pub owner: Option<String>,
    pub warp_account_code_id: u64,
    pub minimum_reward: u128,
    pub creation_fee: u128,
    pub cancellation_fee: u128,
}

/// A job to register.
#[derive(Debug, PartialEq, Eq)]
pub struct CreateJobMsg {
    pub name: String,
    pub condition: Condition,
    pub msgs: Vec<CosmosMsg>,
    pub reward: u128,
}

/// A job to run, if its condition holds.
#[derive(Clone, Copy, Debug, PartialEq, Eq, Structural)]
pub struct ExecuteJobMsg {
    pub id: u64,
}

/// A request that changes the controller.
#[derive(Debug, PartialEq, Eq)]
pub enum ExecuteMsg {
    CreateJob(CreateJobMsg),
    ExecuteJob(ExecuteJobMsg),
}

/// What a request came to, for the host to act on and to report.
#[derive(Debug, PartialEq, Eq)]
pub enum Response {
    /// Nothing to act on.
    Empty,
    /// A job was registered under `job_id`.
    JobCreated { job_id: u64 },
    /// The condition of the job holds: its actions are to be submitted as one
    /// sub-call whose outcome comes back under `job_id`.
    JobDispatched { job_id: u64 },
    /// An account was registered.
    AccountSaved { owner: String, account_address: String },
    /// The outcome of a job's actions was recorded. `job_status` is the state
    /// in which the outcome found the job; `transaction_error` is what a
    /// failed sub-call reported.
    JobFinished { job_id: u64, job_status: JobStatus, transaction_error: Option<String> },
}

/// The controller as a mathematical value: what it holds, without how.
pub struct ControllerView {
    pub state: State,
    pub config: Config,
    pub pending: Map<u64, Job>,
    pub finished: Map<u64, Job>,
    pub accounts: Map<Seq<char>, Account>,
}

impl ControllerView {
    /// The records agree with one another: a job is kept under its own id, in
    /// one collection only, pending jobs are pending and finished jobs are
    /// final, and every id in use was given out, from one on.
    pub open spec fn consistent(self) -> bool {
        &&& self.state.current_job_id >= 1
        &&& forall|id: u64| #[trigger]
            self.pending.contains_key(id) ==> {
                &&& !self.finished.contains_key(id)
                &&& self.pending[id].id == id
                &&& self.pending[id].status == JobStatus::Pending
                &&& 1 <= id < self.state.current_job_id
            }
        &&& forall|id: u64| #[trigger]
            self.finished.contains_key(id) ==> {
                &&& self.finished[id].id == id
                &&& self.finished[id].status.is_final()
                &&& 1 <= id < self.state.current_job_id
            }
    }

    /// Every id that was given out is the id of a job that is still known.
    pub open spec fn complete(self) -> bool {
        forall|id: u64|
            1 <= id < self.state.current_job_id ==> #[trigger] self.pending.contains_key(id)
                || self.finished.contains_key(id)
    }
}

/// The controller: its settings and counters, the jobs that wait, the jobs
/// that are done, and the accounts.
pub struct Controller {
    state: State,
    config: Config,
    pending: JobMap,
    finished: JobMap,
    accounts: AccountMap,
}

impl View for Controller {
    type V = ControllerView;

    closed spec fn view(&self) -> ControllerView {
        ControllerView {
            state: self.state,
            config: self.config,
            pending: self.pending@,
            finished: self.finished@,
            accounts: self.accounts@,
        }
    }
}

/// The controller that `instantiate` sets up for `owner` from `msg`.
pub open spec fn configured(owner: String, msg: InstantiateMsg) -> ControllerView {
    ControllerView {
        state: State { current_job_id: 1 },
        config: Config {
            owner,
            warp_account_code_id: msg.warp_account_code_id,
            minimum_reward: msg.minimum_reward,
            creation_fee_percentage: msg.creation_fee,
            cancellation_fee_percentage: msg.cancellation_fee,
        },
        pending: Map::empty(),
        finished: Map::empty(),
        accounts: Map::empty(),
    }
}

/// The job that `create_job` registers.
pub open spec fn created_job(id: u64, env: Env, info: MessageInfo, data: CreateJobMsg) -> Job {
    Job {
        id,
        owner: info.sender,
        last_update_time: env.block.time.seconds(),
        name: data.name,
        status: JobStatus::Pending,
        condition: data.condition,
        msgs: data.msgs,
        reward: data.reward,
    }
}

/// What an attempt to run a job comes to once its condition has been
/// decided: the job is dispatched where the condition holds, the attempt is
/// turned down where it does not, and a failure of the evaluation is passed
/// on.
pub open spec fn dispatch_result(verdict: Result<bool, ContractError>, job_id: u64) -> Result<
    Response,
    ContractError,
> {
    match verdict {
        Ok(true) => Ok(Response::JobDispatched { job_id }),
        Ok(false) => Err(ContractError::ConditionNotMet),
        Err(e) => Err(e),
    }
}

/// The state in which the outcome of its actions leaves a job.
pub open spec fn outcome_status(succeeded: bool) -> JobStatus {
    if succeeded {
        JobStatus::Executed
    } else {
        JobStatus::Failed
    }
}

/// `job` in the state `status`, all else unchanged.
pub open spec fn with_status(job: Job, status: JobStatus) -> Job {
    Job {
        id: job.id,
        owner: job.owner,
        last_update_time: job.last_update_time,
        name: job.name,
        status,
        condition: job.condition,
        msgs: job.msgs,
        reward: job.reward,
    }
}

/// The controller after the outcome of the pending job `id` was recorded.
pub open spec fn after_outcome(before: ControllerView, id: u64, succeeded: bool) -> ControllerView {
    ControllerView {
        state: before.state,
        config: before.config,
        pending: before.pending.remove(id),
        finished: before.finished.insert(
            id,
            with_status(before.pending[id], outcome_status(succeeded)),
        ),
        accounts: before.accounts,
    }
}

/// What recording the outcome of job `id` comes to: the controller after
/// it, where the job was pending; `JobAlreadyFinished` where the job is
/// among the finished ones; `JobNotFound` where it is not known.
pub open spec fn finish_result(before: ControllerView, id: u64, succeeded: bool) -> Result<
    ControllerView,
    ContractError,
> {
    if before.finished.contains_key(id) {
        Err(ContractError::JobAlreadyFinished)
    } else if !before.pending.contains_key(id) {
        Err(ContractError::JobNotFound)
    } else {
        Ok(after_outcome(before, id, succeeded))
    }
}

/// Registering a job: it gets the next id, unless none is left.
pub open spec fn creation_result(
    before: ControllerView,
    env: Env,
    info: MessageInfo,
    data: CreateJobMsg,
) -> Result<ControllerView, ContractError> {
    let id = before.state.current_job_id;
    if id == u64::MAX {
        Err(ContractError::JobIdsExhausted)
    } else {
        Ok(
            ControllerView {
                state: State { current_job_id: (id + 1) as u64 },
                config: before.config,
                pending: before.pending.insert(id, created_job(id, env, info, data)),
                finished: before.finished,
                accounts: before.accounts,
            },
        )
    }
}

/// The possible outcomes of an attempt to run job `id`: `JobNotFound` where
/// no such job is pending, and otherwise what `dispatch_result` makes of the
/// possible verdicts on the job's condition.
pub open spec fn execution_outcomes(before: ControllerView, env: Env, id: u64) -> Set<
    Result<Response, ContractError>,
> {
    Set::new(
        |r: Result<Response, ContractError>|
            if before.pending.contains_key(id) {
                exists|verdict: Result<bool, ContractError>|
                    #[trigger] cond_outcomes(before.pending[id].condition, env).contains(verdict)
                        && r == dispatch_result(verdict, id)
            } else {
                r == Err::<Response, ContractError>(ContractError::JobNotFound)
            },
    )
}

/// The decision of `dispatch_result`.
pub fn dispatch_on(verdict: Result<bool, ContractError>, job_id: u64) -> (r: Result<
    Response,
    ContractError,
>)
    ensures
        r == dispatch_result(verdict, job_id),
{
    match verdict {
        Ok(true) => Ok(Response::JobDispatched { job_id }),
        Ok(false) => Err(ContractError::ConditionNotMet),
        Err(e) => Err(e),
    }
}

impl Controller {
    /// The collections are in order and the records agree with one another.
    pub closed spec fn wf(&self) -> bool {
        &&& self.pending.wf()
        &&& self.finished.wf()
        &&& self.accounts.wf()
        &&& self@.consistent()
    }

    /// Some account has the address `address`.
    pub closed spec fn holds_address(&self, address: Seq<char>) -> bool {
        self.accounts.holds_address(address)
    }

    /// In a controller that is in order the records agree with one another.
    pub proof fn lemma_consistent(&self)
        requires
            self.wf(),
        ensures
            self@.consistent(),
    {
    }

    /// A controller for `owner` with the settings of `msg`; the fees are
    /// percentages, and none may be above one hundred. The first job will
    /// get the id one.
    pub fn configure(owner: String, msg: &InstantiateMsg) -> (r: Result<Controller, ContractError>)
        ensures
            msg.creation_fee > 100 ==> r is Err && r->Err_0 == ContractError::CreationFeeTooHigh,
            msg.creation_fee <= 100 && msg.cancellation_fee > 100 ==> r is Err && r->Err_0
                == ContractError::CancellationFeeTooHigh,
            msg.creation_fee <= 100 && msg.cancellation_fee <= 100 ==> r is Ok && r->Ok_0.wf()
                && r->Ok_0@ == configured(owner, *msg) && r->Ok_0@.complete(),
            r is Ok ==> forall|address: Seq<char>| !r->Ok_0.holds_address(address),
    {
        let state = State { current_job_id: 1 };
        let config = Config {
            owner,
            warp_account_code_id: msg.warp_account_code_id,
            minimum_reward: msg.minimum_reward,
            creation_fee_percentage: msg.creation_fee,
            cancellation_fee_percentage: msg.cancellation_fee,
        };
        if config.creation_fee_percentage > 100 {
            return Err(ContractError::CreationFeeTooHigh);
        }
        if config.cancellation_fee_percentage > 100 {
            return Err(ContractError::CancellationFeeTooHigh);
        }
        let controller = Controller {
            state,
            config,
            pending: PENDING_JOBS(),
            finished: FINISHED_JOBS(),
            accounts: ACCOUNTS(),
        };
        Ok(controller)
    }

    /// The counters.
    pub fn state(&self) -> (r: &State)
        ensures
            *r == self@.state,
    {
        &self.state
    }

    /// The settings.
    pub fn config(&self) -> (r: &Config)
        ensures
            *r == self@.config,
    {
        &self.config
    }

    /// The jobs that wait for their condition.
    pub fn pending(&self) -> (r: &JobMap)
        ensures
            r@ == self@.pending,
            self.wf() ==> r.wf(),
    {
        &self.pending
    }

    /// The jobs that have reached a final state.
    pub fn finished(&self) -> (r: &JobMap)
        ensures
            r@ == self@.finished,
            self.wf() ==> r.wf(),
    {
        &self.finished
    }

    /// The accounts.
    pub fn accounts(&self) -> (r: &AccountMap)
        ensures
            r@ == self@.accounts,
            self.wf() ==> r.wf(),
    {
        &self.accounts
    }

    /// Registers a job under the next id, as pending, owned by the sender and
    /// stamped with the block time in seconds.
    pub fn create_job(&mut self, env: &Env, info: &MessageInfo, data: CreateJobMsg) -> (r: Result<
        Response,
        ContractError,
    >)
        requires
            old(self).wf(),
        ensures
            final(self).wf(),
            old(self)@.complete() ==> final(self)@.complete(),
            forall|address: Seq<char>|
                final(self).holds_address(address) == old(self).holds_address(address),
            match creation_result(old(self)@, *env, *info, data) {
                Ok(after) => r is Ok && r->Ok_0 == (Response::JobCreated {
                    job_id: old(self)@.state.current_job_id,
                }) && final(self)@ == after,
                Err(e) => r is Err && r->Err_0 == e && final(self)@ == old(self)@,
            },
    {
        let id = self.state.current_job_id;
        if id == u64::MAX {
            return Err(ContractError::JobIdsExhausted);
        }
        let job = Job {
            id,
            owner: info.sender.clone(),
            last_update_time: env.block.time.seconds(),
            name: data.name,
            status: JobStatus::Pending,
            condition: data.condition,
            msgs: data.msgs,
            reward: data.reward,
        };
        self.pending.save(job);
        self.state.current_job_id = id + 1;
        Ok(Response::JobCreated { job_id: id })
    }

    /// Tries to run the pending job `data.id`: decides its condition and,
    /// where it holds, hands the job over for dispatch. The job stays
    /// pending either way.
    pub fn execute_job(&self, deps: &Deps<'_>, env: &Env, _info: &MessageInfo, data: ExecuteJobMsg) -> (r:
        Result<Response, ContractError>)
        requires
            self.wf(),
        ensures
            execution_outcomes(self@, *env, data.id).contains(r),
    {
        let job = match self.pending.load(data.id) {
            Ok(job) => job,
            Err(e) => {
                return Err(e);
            },
        };
        let verdict = resolve_cond(deps, env, &job.condition);
        dispatch_on(verdict, data.id)
    }

    /// Records the outcome of the actions of job `id`: the job leaves the
    /// pending jobs and joins the finished ones, as executed where the
    /// actions succeeded and as failed where they did not. A job is finished
    /// once: an outcome for a finished job is turned down, and so is one for
    /// a job that is not known.
    pub fn finish_job(&mut self, id: u64, succeeded: bool) -> (r: Result<JobStatus, ContractError>)
        requires
            old(self).wf(),
        ensures
            final(self).wf(),
            old(self)@.complete() ==> final(self)@.complete(),
            forall|address: Seq<char>|
                final(self).holds_address(address) == old(self).holds_address(address),
            match finish_result(old(self)@, id, succeeded) {
                Ok(after) => r is Ok && r->Ok_0 == old(self)@.pending[id].status && final(self)@
                    == after,
                Err(e) => r is Err && r->Err_0 == e && final(self)@ == old(self)@,
            },
    {
        if self.finished.has(id) {
            return Err(ContractError::JobAlreadyFinished);
        }
        if !self.pending.has(id) {
            return Err(ContractError::JobNotFound);
        }
        let job = match self.pending.remove(id) {
            Some(job) => job,
            None => {
                return Err(ContractError::JobNotFound);
            },
        };
        let found = job.status;
        let new_status = if succeeded {
            JobStatus::Executed
        } else {
            JobStatus::Failed
        };
        self.finished.save(
            Job {
                id: job.id,
                owner: job.owner,
                last_update_time: job.last_update_time,
                name: job.name,
                status: new_status,
                condition: job.condition,
                msgs: job.msgs,
                reward: job.reward,
            },
        );
        Ok(found)
    }
}

/// A key and a value, as events carry them.
#[derive(Debug, PartialEq, Eq)]
pub struct Attribute {
    pub key: String,
    pub value: String,
}

/// What a sub-call reports of one thing that happened in it.
#[derive(Debug, PartialEq, Eq)]
pub struct Event {
    pub ty: String,
    pub attributes: Vec<Attribute>,
}

/// What a sub-call that succeeded hands back.
#[derive(Debug, PartialEq, Eq)]
pub struct SubMsgResponse {
    pub events: Vec<Event>,
    pub data: Option<Vec<u8>>,
}

/// How a sub-call ended.
#[derive(Debug, PartialEq, Eq)]
pub enum SubMsgResult {
    Success(SubMsgResponse),
    /// The sub-call failed; its report.
    Failure(String),
}

/// The outcome of a sub-call, under the id that it was submitted with. The
/// id zero stands for the creation of an account; any other id is that of a
/// job whose actions were submitted.
#[derive(Debug, PartialEq, Eq)]
pub struct Reply {
    pub id: u64,
    pub result: SubMsgResult,
}

/// The value of the first attribute with the key `key`, if there is one.
pub open spec fn first_value(attributes: Seq<Attribute>, key: Seq<char>) -> Option<String>
    decreases attributes.len(),
{
    if attributes.len() == 0 {
        None
    } else if attributes[0].key@ == key {
        Some(attributes[0].value)
    } else {
        first_value(attributes.drop_first(), key)
    }
}

/// Some attribute has the key `key` and the value `value`.
pub open spec fn has_pair(attributes: Seq<Attribute>, key: Seq<char>, value: Seq<char>) -> bool {
    exists|i: int|
        0 <= i < attributes.len() && #[trigger] attributes[i].key@ == key && attributes[i].value@
            == value
}

/// The event tells of the instantiation of a contract.
pub open spec fn tells_instantiate(event: Event) -> bool {
    has_pair(event.attributes@, "action"@, "instantiate"@)
}

/// The first event that tells of an instantiation, if there is one.
pub open spec fn first_instantiate(events: Seq<Event>) -> Option<Event>
    decreases events.len(),
{
    if events.len() == 0 {
        None
    } else if tells_instantiate(events[0]) {
        Some(events[0])
    } else {
        first_instantiate(events.drop_first())
    }
}

/// The owner and the address that an acknowledgment of account creation
/// names: the values of `owner` and `contract_addr` in its first event that
/// tells of an instantiation.
pub open spec fn acknowledged(events: Seq<Event>) -> Result<(String, String), ContractError> {
    match first_instantiate(events) {
        None => Err(ContractError::MalformedAcknowledgment { missing: AckPart::InstantiateEvent }),
        Some(event) => match first_value(event.attributes@, "owner"@) {
            None => Err(ContractError::MalformedAcknowledgment { missing: AckPart::Owner }),
            Some(owner) => match first_value(event.attributes@, "contract_addr"@) {
                None => Err(
                    ContractError::MalformedAcknowledgment { missing: AckPart::ContractAddr },
                ),
                Some(address) => Ok((owner, address)),
            },
        },
    }
}

fn find_value<'a>(attributes: &'a Vec<Attribute>, key: &str) -> (r: Option<&'a String>)
    ensures
        r is Some == first_value(attributes@, key@) is Some,
        r matches Some(value) ==> first_value(attributes@, key@) == Some(*value),
{
    let wanted = String::from_str(key);
    let mut i: usize = 0;
    assert(attributes@.skip(0) =~= attributes@);
    while i < attributes.len()
        invariant
            i <= attributes.len(),
            wanted@ == key@,
            first_value(attributes@, key@) == first_value(attributes@.skip(i as int), key@),
        decreases attributes.len() - i,
    {
        proof {
            assert(attributes@.skip(i as int).drop_first() =~= attributes@.skip(i + 1));
            assert(attributes@.skip(i as int)[0] == attributes@[i as int]);
        }
        if attributes[i].key == wanted {
            return Some(&attributes[i].value);
        }
        i = i + 1;
    }
    None
}

fn is_instantiate(event: &Event) -> (r: bool)
    ensures
        r == tells_instantiate(*event),
{
    let action = String::from_str("action");
    let instantiate = String::from_str("instantiate");
    let mut i: usize = 0;
    while i < event.attributes.len()
        invariant
            i <= event.attributes.len(),
            action@ == "action"@,
            instantiate@ == "instantiate"@,
            forall|j: int|
                0 <= j < i ==> !(#[trigger] event.attributes@[j].key@ == "action"@
                    && event.attributes@[j].value@ == "instantiate"@),
        decreases event.attributes.len() - i,
    {
        if event.attributes[i].key == action && event.attributes[i].value == instantiate {
            assert(event.attributes@[i as int].key@ == "action"@);
            return true;
        }
        i = i + 1;
    }
    false
}

/// Reads the owner and the address out of an acknowledgment of account
/// creation.
pub fn parse_acknowledgment(events: &Vec<Event>) -> (r: Result<(String, String), ContractError>)
    ensures
        r == acknowledged(events@),
{
    let mut i: usize = 0;
    assert(events@.skip(0) =~= events@);
    while i < events.len()
        invariant
            i <= events.len(),
            first_instantiate(events@) == first_instantiate(events@.skip(i as int)),
        decreases events.len() - i,
    {
        proof {
            assert(events@.skip(i as int).drop_first() =~= events@.skip(i + 1));
            assert(events@.skip(i as int)[0] == events@[i as int]);
        }
        if is_instantiate(&events[i]) {
            let event = &events[i];
            let owner = match find_value(&event.attributes, "owner") {
                Some(owner) => owner.clone(),
                None => {
                    return Err(
                        ContractError::MalformedAcknowledgment { missing: AckPart::Owner },
                    );
                },
            };
            let address = match find_value(&event.attributes, "contract_addr") {
                Some(address) => address.clone(),
                None => {
                    return Err(
                        ContractError::MalformedAcknowledgment { missing: AckPart::ContractAddr },
                    );
                },
            };
            return Ok((owner, address));
        }
        i = i + 1;
    }
    Err(ContractError::MalformedAcknowledgment { missing: AckPart::InstantiateEvent })
}

impl Controller {
    /// Registers the account at `address` for `owner`, unless the owner has
    /// an account already or the address belongs to one.
    pub fn register_account(&mut self, owner: String, address: String) -> (r: Result<
        Response,
        ContractError,
    >)
        requires
            old(self).wf(),
        ensures
            final(self).wf(),
            old(self)@.complete() ==> final(self)@.complete(),
            r is Err <==> old(self)@.accounts.contains_key(owner@) || old(self).holds_address(
                address@,
            ),
            r matches Err(e) ==> e == ContractError::AccountAlreadyExists && *final(self) == *old(
                self,
            ),
            r is Ok ==> r->Ok_0 == (Response::AccountSaved { owner, account_address: address })
                && final(self)@ == (ControllerView {
                accounts: old(self)@.accounts.insert(owner@, Account { owner, account: address }),
                ..old(self)@
            }),
            r is Ok ==> forall|other: Seq<char>|
                final(self).holds_address(other) == (old(self).holds_address(other) || other
                    == address@),
    {
        let saved = Response::AccountSaved {
            owner: owner.clone(),
            account_address: address.clone(),
        };
        match self.accounts.save(Account { owner, account: address }) {
            Ok(()) => Ok(saved),
            Err(e) => Err(e),
        }
    }
}

/// Takes in the outcome of a sub-call.
///
/// Under the id zero it is the acknowledgment of the creation of an
/// account: a failed creation is passed on; otherwise the owner and the
/// address that the acknowledgment names are put before the host, the
/// owner first, and registered where the host accepts both as addresses.
/// An owner who has an account is turned down before the address is
/// looked at.
///
/// Under any other id it is the outcome of the actions of the job with
/// that id, recorded as `finish_job` says.
pub fn reply(controller: &mut Controller, deps: &Deps<'_>, _env: &Env, msg: Reply) -> (r: Result<
    Response,
    ContractError,
>)
    requires
        old(controller).wf(),
    ensures
        final(controller).wf(),
        old(controller)@.complete() ==> final(controller)@.complete(),
        r is Err ==> final(controller)@ == old(controller)@,
        msg.id != 0 ==> match finish_result(old(controller)@, msg.id, msg.result is Success) {
            Ok(after) => r is Ok && r->Ok_0 == job_finished(
                old(controller)@.pending[msg.id],
                msg.result,
            ) && final(controller)@ == after,
            Err(e) => r is Err && r->Err_0 == e,
        },
        msg.id == 0 ==> account_reply_admits(old(controller)@, msg.result, final(controller)@, r),
{
    if msg.id == 0 {
        let response = match msg.result {
            SubMsgResult::Success(response) => response,
            SubMsgResult::Failure(reason) => {
                return Err(ContractError::AccountCreationFailed { reason });
            },
        };
        let (owner, address) = parse_acknowledgment(&response.events)?;
        let owner = match addr_validate(deps, owner.as_str()) {
            Some(owner) => owner,
            None => {
                return Err(ContractError::InvalidAddress);
            },
        };
        if controller.accounts.has(&owner) {
            return Err(ContractError::AccountAlreadyExists);
        }
        let address = match addr_validate(deps, address.as_str()) {
            Some(address) => address,
            None => {
                return Err(ContractError::InvalidAddress);
            },
        };
        proof {
            controller.accounts.lemma_holds_address(address@);
        }
        let r = controller.register_account(owner, address);
        proof {
            if r is Ok {
                assert(controller@.accounts.remove(owner@) =~= old(controller)@.accounts);
            }
        }
        r
    } else {
        let (succeeded, transaction_error) = match msg.result {
            SubMsgResult::Success(_) => (true, None),
            SubMsgResult::Failure(e) => (false, Some(e)),
        };
        let job_status = controller.finish_job(msg.id, succeeded)?;
        Ok(Response::JobFinished { job_id: msg.id, job_status, transaction_error })
    }
}

/// The report on the outcome of the actions of `job`, which was pending.
pub open spec fn job_finished(job: Job, result: SubMsgResult) -> Response {
    Response::JobFinished {
        job_id: job.id,
        job_status: job.status,
        transaction_error: match result {
            SubMsgResult::Success(_) => None,
            SubMsgResult::Failure(e) => Some(e),
        },
    }
}

/// Some account of `accounts` has the address `address`.
pub open spec fn address_taken(accounts: Map<Seq<char>, Account>, address: Seq<char>) -> bool {
    exists|owner: Seq<char>|
        #[trigger] accounts.contains_key(owner) && accounts[owner].account@ == address
}

/// What may come of an acknowledgment of account creation, the host being
/// free to accept or refuse the two addresses. A failed creation and a
/// malformed acknowledgment are passed on. Otherwise the reply fails with
/// `InvalidAddress` or `AccountAlreadyExists`, the latter only where the
/// owner has an account or the address belongs to one; or the account is
/// registered under the owner that the acknowledgment names, which then had
/// no account.
pub open spec fn account_reply_admits(
    before: ControllerView,
    result: SubMsgResult,
    after: ControllerView,
    r: Result<Response, ContractError>,
) -> bool {
    match result {
        SubMsgResult::Failure(reason) => r == Err::<Response, ContractError>(
            ContractError::AccountCreationFailed { reason },
        ),
        SubMsgResult::Success(response) => match acknowledged(response.events@) {
            Err(e) => r == Err::<Response, ContractError>(e),
            Ok((owner, address)) => match r {
                Err(e) => {
                    ||| e == ContractError::InvalidAddress
                    ||| e == ContractError::AccountAlreadyExists && (before.accounts.contains_key(
                        owner@,
                    ) || address_taken(before.accounts, address@))
                },
                Ok(saved) => {
                    &&& saved matches Response::AccountSaved { owner: o, account_address: a }
                    &&& o@ == owner@
                    &&& a@ == address@
                    &&& !before.accounts.contains_key(owner@)
                    &&& !address_taken(before.accounts, address@)
                    &&& after.accounts.contains_key(owner@)
                    &&& after.accounts[owner@].owner@ == owner@
                    &&& after.accounts[owner@].account@ == address@
                    &&& after.accounts.remove(owner@) == before.accounts
                    &&& after.pending == before.pending
                    &&& after.finished == before.finished
                    &&& after.state == before.state
                    &&& after.config == before.config
                },
            },
        },
    }
}

/// The owner that a controller is set up for: the one that `msg` names, or
/// the sender where it names none.
pub open spec fn chosen_owner(info: MessageInfo, msg: InstantiateMsg) -> String {
    match msg.owner {
        Some(owner) => owner,
        None => info.sender,
    }
}

/// Sets up a controller. The owner is put before the host, which is free to
/// refuse it as an address; then the fees are looked at, the creation fee
/// first.
pub fn instantiate(deps: &Deps<'_>, _env: &Env, info: &MessageInfo, msg: &InstantiateMsg) -> (r:
    Result<(Controller, Response), ContractError>)
    ensures
        r matches Ok((controller, response)) ==> {
            &&& response == Response::Empty
            &&& controller.wf()
            &&& controller@.complete()
            &&& msg.creation_fee <= 100
            &&& msg.cancellation_fee <= 100
            &&& controller@ == configured(controller@.config.owner, *msg)
            &&& controller@.config.owner@ == chosen_owner(*info, *msg)@
            &&& forall|address: Seq<char>| !controller.holds_address(address)
        },
        r matches Err(e) ==> {
            ||| e == ContractError::InvalidAddress
            ||| e == ContractError::CreationFeeTooHigh && msg.creation_fee > 100
            ||| e == ContractError::CancellationFeeTooHigh && msg.creation_fee <= 100
                && msg.cancellation_fee > 100
        },
{
    let named = match &msg.owner {
        Some(owner) => owner,
        None => &info.sender,
    };
    let owner = match addr_validate(deps, named.as_str()) {
        Some(owner) => owner,
        None => {
            return Err(ContractError::InvalidAddress);
        },
    };
    match Controller::configure(owner, msg) {
        Ok(controller) => Ok((controller, Response::Empty)),
        Err(e) => Err(e),
    }
}

/// Carries out a request: registers a job, or tries to run one.
pub fn execute(
    controller: &mut Controller,
    deps: &Deps<'_>,
    env: &Env,
    info: &MessageInfo,
    msg: ExecuteMsg,
) -> (r: Result<Response, ContractError>)
    requires
        old(controller).wf(),
    ensures
        final(controller).wf(),
        old(controller)@.complete() ==> final(controller)@.complete(),
        forall|address: Seq<char>|
            final(controller).holds_address(address) == old(controller).holds_address(address),
        msg matches ExecuteMsg::CreateJob(data) ==> match creation_result(
            old(controller)@,
            *env,
            *info,
            data,
        ) {
            Ok(after) => r is Ok && r->Ok_0 == (Response::JobCreated {
                job_id: old(controller)@.state.current_job_id,
            }) && final(controller)@ == after,
            Err(e) => r is Err && r->Err_0 == e && final(controller)@ == old(controller)@,
        },
        msg matches ExecuteMsg::ExecuteJob(data) ==> final(controller)@ == old(controller)@
            && execution_outcomes(old(controller)@, *env, data.id).contains(r),
{
    match msg {
        ExecuteMsg::CreateJob(data) => controller.create_job(env, info, data),
        ExecuteMsg::ExecuteJob(data) => controller.execute_job(deps, env, info, data),
    }
}

/// A question to the controller.
#[derive(Debug, PartialEq, Eq)]
pub enum QueryMsg {
    /// Does the condition of the pending job `id` hold at present?
    QueryResolveJobCondition { id: u64 },
    /// The job `id`, pending or finished.
    QueryJob { id: u64 },
    /// A page of the pending jobs (`active`) or of the finished ones, in the
    /// ordering `order`, after `start_after`. A page holds at most
    /// `QUERY_PAGE_SIZE` jobs, and no more than `limit`.
    QueryJobs { active: bool, order: JobOrder, start_after: Option<JobKey>, limit: Option<u32> },
    /// Does `condition` hold at present?
    QueryResolveCondition { condition: Condition },
    /// The answer of the query channel to `query`, as text.
    SimulateQuery { query: QueryRequest<String> },
    /// The account of `owner`.
    QueryAccount { owner: String },
    /// The settings.
    QueryConfig,
}

/// The answer to a question.
#[derive(Debug, PartialEq, Eq)]
pub enum QueryResponse<'a> {
    Resolved(bool),
    Job(&'a Job),
    Jobs(Vec<&'a Job>),
    Simulated(String),
    Account(&'a Account),
    Config(&'a Config),
}

/// The most jobs that a page asked for with `limit` holds.
pub open spec fn page_limit(limit: Option<u32>) -> u32 {
    match limit {
        Some(n) => if n < QUERY_PAGE_SIZE {
            n
        } else {
            QUERY_PAGE_SIZE
        },
        None => QUERY_PAGE_SIZE,
    }
}

/// `r` is a possible answer to `msg`. Where the answer rests on a condition,
/// it is one of the condition's possible verdicts; where it rests on an
/// external query, it is a possible outcome of putting that query; all else
/// is fixed by what the controller holds.
pub open spec fn answers(
    controller: ControllerView,
    env: Env,
    msg: QueryMsg,
    r: Result<QueryResponse<'_>, ContractError>,
) -> bool {
    match msg {
        QueryMsg::QueryResolveJobCondition { id } => if controller.pending.contains_key(id) {
            match r {
                Ok(QueryResponse::Resolved(verdict)) => cond_outcomes(
                    controller.pending[id].condition,
                    env,
                ).contains(Ok(verdict)),
                Ok(_) => false,
                Err(e) => cond_outcomes(controller.pending[id].condition, env).contains(Err(e)),
            }
        } else {
            r == Err::<QueryResponse<'_>, ContractError>(ContractError::JobNotFound)
        },
        QueryMsg::QueryJob { id } => if controller.pending.contains_key(id) {
            r matches Ok(QueryResponse::Job(job)) && *job == controller.pending[id]
        } else if controller.finished.contains_key(id) {
            r matches Ok(QueryResponse::Job(job)) && *job == controller.finished[id]
        } else {
            r == Err::<QueryResponse<'_>, ContractError>(ContractError::JobNotFound)
        },
        QueryMsg::QueryJobs { active, order, start_after, limit } => r matches Ok(
            QueryResponse::Jobs(page),
        ) && is_page(
            if active {
                controller.pending
            } else {
                controller.finished
            },
            order,
            start_after,
            page_limit(limit) as nat,
            page@,
        ),
        QueryMsg::QueryResolveCondition { condition } => match r {
            Ok(QueryResponse::Resolved(verdict)) => cond_outcomes(condition, env).contains(
                Ok(verdict),
            ),
            Ok(_) => false,
            Err(e) => cond_outcomes(condition, env).contains(Err(e)),
        },
        QueryMsg::SimulateQuery { query } => match r {
            Ok(QueryResponse::Simulated(text)) => text_lookup(query, Ok(text@)),
            Ok(_) => false,
            Err(e) => text_lookup(query, Err(e)),
        },
        QueryMsg::QueryAccount { owner } => if controller.accounts.contains_key(owner@) {
            r matches Ok(QueryResponse::Account(account)) && *account
                == controller.accounts[owner@]
        } else {
            r == Err::<QueryResponse<'_>, ContractError>(ContractError::AccountNotFound)
        },
        QueryMsg::QueryConfig => r matches Ok(QueryResponse::Config(config)) && *config
            == controller.config,
    }
}

/// Answers a question. Nothing changes.
pub fn query<'a>(controller: &'a Controller, deps: &Deps<'_>, env: &Env, msg: &QueryMsg) -> (r:
    Result<QueryResponse<'a>, ContractError>)
    requires
        controller.wf(),
    ensures
        answers(controller@, *env, *msg, r),
{
    match msg {
        QueryMsg::QueryResolveJobCondition { id } => {
            let job = match controller.pending.load(*id) {
                Ok(job) => job,
                Err(e) => {
                    return Err(e);
                },
            };
            match resolve_cond(deps, env, &job.condition) {
                Ok(verdict) => Ok(QueryResponse::Resolved(verdict)),
                Err(e) => Err(e),
            }
        },
        QueryMsg::QueryJob { id } => {
            if controller.pending.has(*id) {
                match controller.pending.load(*id) {
                    Ok(job) => Ok(QueryResponse::Job(job)),
                    Err(e) => Err(e),
                }
            } else {
                match controller.finished.load(*id) {
                    Ok(job) => Ok(QueryResponse::Job(job)),
                    Err(e) => Err(e),
                }
            }
        },
        QueryMsg::QueryJobs { active, order, start_after, limit } => {
            let most = match limit {
                Some(n) => if *n < QUERY_PAGE_SIZE {
                    *n
                } else {
                    QUERY_PAGE_SIZE
                },
                None => QUERY_PAGE_SIZE,
            };
            let page = if *active {
                controller.pending.range(*order, *start_after, most)
            } else {
                controller.finished.range(*order, *start_after, most)
            };
            Ok(QueryResponse::Jobs(page))
        },
        QueryMsg::QueryResolveCondition { condition } => {
            match resolve_cond(deps, env, condition) {
                Ok(verdict) => Ok(QueryResponse::Resolved(verdict)),
                Err(e) => Err(e),
            }
        },
        QueryMsg::SimulateQuery { query } => {
            match query_text(deps, query) {
                Ok(text) => Ok(QueryResponse::Simulated(text)),
                Err(e) => Err(e),
            }
        },
        QueryMsg::QueryAccount { owner } => {
            match controller.accounts.may_load(owner) {
                Some(account) => Ok(QueryResponse::Account(account)),
                None => Err(ContractError::AccountNotFound),
            }
        },
        QueryMsg::QueryConfig => Ok(QueryResponse::Config(&controller.config)),
    }
}

/// Carries the controller over to a new version of the code. All that it
/// holds stays as it is.
pub fn migrate(controller: &mut Controller) -> (r: Result<Response, ContractError>)
    requires
        old(controller).wf(),
    ensures
        r is Ok,
        r->Ok_0 == Response::Empty,
        *final(controller) == *old(controller),
{
    Ok(Response::Empty)
}

/// In a controller whose records agree and are complete, every id that was
/// given out is the id of a job in exactly one of the two collections, and
/// no other id is the id of a job.
pub proof fn lemma_exactly_one(controller: ControllerView, id: u64)
    requires
        controller.consistent(),
        controller.complete(),
    ensures
        1 <= id < controller.state.current_job_id ==> controller.pending.contains_key(id)
            != controller.finished.contains_key(id),
        !(1 <= id < controller.state.current_job_id) ==> !controller.pending.contains_key(id)
            && !controller.finished.contains_key(id),
{
}

/// A job is finished once. After the outcome of a pending job was recorded,
/// a further outcome for the same id is turned down as `JobAlreadyFinished`,
/// and what was recorded first stands.
pub proof fn lemma_finished_once(before: ControllerView, id: u64, first: bool, second: bool)
    requires
        before.consistent(),
        finish_result(before, id, first) is Ok,
    ensures
        finish_result(finish_result(before, id, first)->Ok_0, id, second) == Err::<
            ControllerView,
            ContractError,
        >(ContractError::JobAlreadyFinished),
        finish_result(before, id, first)->Ok_0.finished[id] == with_status(
            before.pending[id],
            outcome_status(first),
        ),
        finish_result(before, id, first)->Ok_0.consistent(),
{
}

/// Recording an outcome keeps the records in agreement, and complete where
/// they were.
pub proof fn lemma_finish_keeps_order(before: ControllerView, id: u64, succeeded: bool)
    requires
        before.consistent(),
        finish_result(before, id, succeeded) is Ok,
    ensures
        finish_result(before, id, succeeded)->Ok_0.consistent(),
        before.complete() ==> finish_result(before, id, succeeded)->Ok_0.complete(),
{
    let after = finish_result(before, id, succeeded)->Ok_0;
    assert forall|other: u64| #[trigger] after.finished.contains_key(other) implies {
        &&& after.finished[other].id == other
        &&& after.finished[other].status.is_final()
        &&& 1 <= other < after.state.current_job_id
    } by {
        if other != id {
            assert(before.finished.contains_key(other));
        } else {
            assert(before.pending.contains_key(id));
        }
    }
    assert forall|other: u64| #[trigger] after.pending.contains_key(other) implies {
        &&& !after.finished.contains_key(other)
        &&& after.pending[other].id == other
        &&& after.pending[other].status == JobStatus::Pending
        &&& 1 <= other < after.state.current_job_id
    } by {
        assert(before.pending.contains_key(other));
    }
    if before.complete() {
        assert forall|other: u64| 1 <= other < after.state.current_job_id implies #[trigger]
            after.pending.contains_key(other) || after.finished.contains_key(other) by {
            assert(before.pending.contains_key(other) || before.finished.contains_key(other));
        }
    }
}

/// Registering a job keeps the records in agreement, and complete where
/// they were; the new job is pending under an id that no job had.
pub proof fn lemma_creation_keeps_order(
    before: ControllerView,
    env: Env,
    info: MessageInfo,
    data: CreateJobMsg,
)
    requires
        before.consistent(),
        creation_result(before, env, info, data) is Ok,
    ensures
        creation_result(before, env, info, data)->Ok_0.consistent(),
        before.complete() ==> creation_result(before, env, info, data)->Ok_0.complete(),
        !before.pending.contains_key(before.state.current_job_id),
        !before.finished.contains_key(before.state.current_job_id),
        creation_result(before, env, info, data)->Ok_0.pending[before.state.current_job_id]
            == created_job(before.state.current_job_id, env, info, data),
{
    let after = creation_result(before, env, info, data)->Ok_0;
    let id = before.state.current_job_id;
    assert forall|other: u64| #[trigger] after.pending.contains_key(other) implies {
        &&& !after.finished.contains_key(other)
        &&& after.pending[other].id == other
        &&& after.pending[other].status == JobStatus::Pending
        &&& 1 <= other < after.state.current_job_id
    } by {
        if other != id {
            assert(before.pending.contains_key(other));
        } else {
            if before.finished.contains_key(id) {
            }
        }
    }
    assert forall|other: u64| #[trigger] after.finished.contains_key(other) implies {
        &&& after.finished[other].id == other
        &&& after.finished[other].status.is_final()
        &&& 1 <= other < after.state.current_job_id
    } by {
        assert(before.finished.contains_key(other));
    }
    if before.complete() {
        assert forall|other: u64| 1 <= other < after.state.current_job_id implies #[trigger]
            after.pending.contains_key(other) || after.finished.contains_key(other) by {
            if other != id {
                assert(before.pending.contains_key(other) || before.finished.contains_key(other));
            }
        }
    }
}

/// The controller after two jobs were registered one after the other.
pub open spec fn after_two_creations(
    before: ControllerView,
    env: Env,
    first_info: MessageInfo,
    first: CreateJobMsg,
    second_info: MessageInfo,
    second: CreateJobMsg,
) -> ControllerView {
    creation_result(
        creation_result(before, env, first_info, first)->Ok_0,
        env,
        second_info,
        second,
    )->Ok_0
}

/// Two jobs of equal reward can be registered one after the other while two
/// ids are left to give out. They get different ids, so they stand at
/// different places in the ordering by reward, and pages asked one after
/// another from the beginning until one is not full list both.
pub proof fn lemma_equal_rewards_both_listed(
    before: ControllerView,
    env: Env,
    first_info: MessageInfo,
    first: CreateJobMsg,
    second_info: MessageInfo,
    second: CreateJobMsg,
    limit: nat,
    pages: Seq<Seq<&Job>>,
)
    requires
        before.consistent(),
        before.state.current_job_id < u64::MAX - 1,
        first.reward == second.reward,
        pages_follow(
            after_two_creations(before, env, first_info, first, second_info, second).pending,
            JobOrder::Reward,
            None,
            limit,
            pages,
        ),
        pages.len() > 0,
        pages.last().len() < limit,
    ensures
        creation_result(before, env, first_info, first) is Ok,
        creation_result(
            creation_result(before, env, first_info, first)->Ok_0,
            env,
            second_info,
            second,
        ) is Ok,
        ({
            let after = after_two_creations(before, env, first_info, first, second_info, second);
            let a = before.state.current_job_id;
            let b = (a + 1) as u64;
            &&& after.consistent()
            &&& after.pending.contains_key(a)
            &&& after.pending.contains_key(b)
            &&& after.pending[a] == created_job(a, env, first_info, first)
            &&& after.pending[b] == created_job(b, env, second_info, second)
            &&& after.pending[a].reward == after.pending[b].reward
            &&& listed(joined(pages), a)
            &&& listed(joined(pages), b)
        }),
{
    let middle = creation_result(before, env, first_info, first)->Ok_0;
    lemma_creation_keeps_order(before, env, first_info, first);
    lemma_creation_keeps_order(middle, env, second_info, second);
    let after = after_two_creations(before, env, first_info, first, second_info, second);
    let a = before.state.current_job_id;
    let b = (a + 1) as u64;
    assert(after.pending.contains_key(a));
    assert(after.pending.contains_key(b));
    lemma_pages_list_every_job(after.pending, JobOrder::Reward, limit, pages);
}

/// The records can stand together in one controller: the next id is at
/// least one; no id occurs twice among the jobs; every id was given out;
/// the pending jobs are pending and the finished ones final; and no two
/// accounts share an owner or an address.
pub open spec fn restorable(
    state: State,
    pending: Seq<Job>,
    finished: Seq<Job>,
    accounts: Seq<Account>,
) -> bool {
    &&& state.current_job_id >= 1
    &&& distinct_ids(pending)
    &&& distinct_ids(finished)
    &&& forall|i: int, j: int|
        0 <= i < pending.len() && 0 <= j < finished.len() ==> #[trigger] pending[i].id
            != #[trigger] finished[j].id
    &&& forall|i: int|
        0 <= i < pending.len() ==> (#[trigger] pending[i]).status == JobStatus::Pending && 1
            <= pending[i].id < state.current_job_id
    &&& forall|i: int|
        0 <= i < finished.len() ==> (#[trigger] finished[i]).status.is_final() && 1
            <= finished[i].id < state.current_job_id
    &&& distinct_accounts(accounts)
}

/// `jobs` holds exactly the jobs of `records`, each under its id.
pub open spec fn holds_jobs(jobs: Map<u64, Job>, records: Seq<Job>) -> bool {
    &&& forall|i: int|
        0 <= i < records.len() ==> jobs.contains_key(#[trigger] records[i].id)
            && jobs[records[i].id] == records[i]
    &&& forall|id: u64| #[trigger]
        jobs.contains_key(id) ==> exists|i: int|
            0 <= i < records.len() && #[trigger] records[i].id == id
}

/// `accounts` holds exactly the accounts of `records`, each under its owner.
pub open spec fn holds_accounts(accounts: Map<Seq<char>, Account>, records: Seq<Account>) -> bool {
    &&& forall|i: int|
        0 <= i < records.len() ==> accounts.contains_key(#[trigger] records[i].owner@)
            && accounts[records[i].owner@] == records[i]
    &&& forall|owner: Seq<char>| #[trigger]
        accounts.contains_key(owner) ==> exists|i: int|
            0 <= i < records.len() && #[trigger] records[i].owner@ == owner
}

/// `job` can be taken into a collection of pending jobs, or of finished ones
/// where `done` says so, next to the jobs of `taken`: it is in the right
/// state, its id was given out, and no job of `taken` has it.
pub open spec fn job_fits(job: Job, done: bool, next_id: u64, taken: Map<u64, Job>) -> bool {
    &&& job.status.is_final() == done
    &&& 1 <= job.id < next_id
    &&& !taken.contains_key(job.id)
}

/// The jobs of `records` can form a collection: each fits, and no id occurs
/// twice.
pub open spec fn jobs_fit(records: Seq<Job>, done: bool, next_id: u64, taken: Map<u64, Job>) -> bool {
    &&& distinct_ids(records)
    &&& forall|i: int| 0 <= i < records.len() ==> job_fits(#[trigger] records[i], done, next_id, taken)
}

/// Taking one more job in, under an id that no job has, keeps the
/// collection in step with the records.
pub proof fn lemma_holds_jobs_step(before: Map<u64, Job>, records: Seq<Job>, job: Job)
    requires
        holds_jobs(before, records),
        distinct_ids(records),
        !before.contains_key(job.id),
    ensures
        holds_jobs(before.insert(job.id, job), seq![job] + records),
        distinct_ids(seq![job] + records),
{
    let after = before.insert(job.id, job);
    let grown = seq![job] + records;
    assert forall|i: int| 0 <= i < grown.len() implies after.contains_key(#[trigger] grown[i].id)
        && after[grown[i].id] == grown[i] by {
        if i > 0 {
            assert(grown[i] == records[i - 1]);
            assert(before.contains_key(records[i - 1].id));
        }
    }
    assert forall|id: u64| #[trigger] after.contains_key(id) implies exists|i: int|
        0 <= i < grown.len() && #[trigger] grown[i].id == id by {
        if id == job.id {
            assert(grown[0].id == id);
        } else {
            assert(before.contains_key(id));
            let i = choose|i: int| 0 <= i < records.len() && #[trigger] records[i].id == id;
            assert(grown[i + 1].id == id);
        }
    }
    assert forall|i: int, j: int|
        0 <= i < grown.len() && 0 <= j < grown.len() && i != j implies #[trigger] grown[i].id
        != #[trigger] grown[j].id by {
        if i > 0 {
            assert(grown[i] == records[i - 1]);
            assert(before.contains_key(records[i - 1].id));
        }
        if j > 0 {
            assert(grown[j] == records[j - 1]);
            assert(before.contains_key(records[j - 1].id));
        }
        if i > 0 && j > 0 {
            assert(records[i - 1].id != records[j - 1].id);
        }
    }
}

/// A job whose id another job of the records has cannot join them.
pub proof fn lemma_repeated_job(before: Map<u64, Job>, records: Seq<Job>, job: Job)
    requires
        holds_jobs(before, records),
        before.contains_key(job.id),
    ensures
        !distinct_ids(seq![job] + records),
{
    let grown = seq![job] + records;
    let i = choose|i: int| 0 <= i < records.len() && #[trigger] records[i].id == job.id;
    assert(grown[i + 1].id == grown[0].id);
}

/// What holds of all records holds of those from any place on.
pub proof fn lemma_jobs_fit_from(
    records: Seq<Job>,
    from: int,
    done: bool,
    next_id: u64,
    taken: Map<u64, Job>,
)
    requires
        0 <= from <= records.len(),
        jobs_fit(records, done, next_id, taken),
    ensures
        jobs_fit(records.skip(from), done, next_id, taken),
{
    let rest = records.skip(from);
    assert forall|i: int, j: int|
        0 <= i < rest.len() && 0 <= j < rest.len() && i != j implies #[trigger] rest[i].id
        != #[trigger] rest[j].id by {
        assert(records[from + i].id != records[from + j].id);
    }
    assert forall|i: int| 0 <= i < rest.len() implies job_fits(
        #[trigger] rest[i],
        done,
        next_id,
        taken,
    ) by {
        assert(job_fits(records[from + i], done, next_id, taken));
    }
}

/// Taking one more account in, for a new owner and at a new address, keeps
/// the collection in step with the records.
pub proof fn lemma_holds_accounts_step(
    before: Map<Seq<char>, Account>,
    records: Seq<Account>,
    account: Account,
)
    requires
        holds_accounts(before, records),
        distinct_accounts(records),
        !before.contains_key(account.owner@),
        !address_occurs(records, account.account@),
    ensures
        holds_accounts(before.insert(account.owner@, account), seq![account] + records),
        distinct_accounts(seq![account] + records),
{
    let after = before.insert(account.owner@, account);
    let grown = seq![account] + records;
    assert forall|i: int| 0 <= i < grown.len() implies after.contains_key(
        #[trigger] grown[i].owner@,
    ) && after[grown[i].owner@] == grown[i] by {
        if i > 0 {
            assert(grown[i] == records[i - 1]);
            assert(before.contains_key(records[i - 1].owner@));
        }
    }
    assert forall|owner: Seq<char>| #[trigger] after.contains_key(owner) implies exists|i: int|
        0 <= i < grown.len() && #[trigger] grown[i].owner@ == owner by {
        if owner == account.owner@ {
            assert(grown[0].owner@ == owner);
        } else {
            assert(before.contains_key(owner));
            let i = choose|i: int| 0 <= i < records.len() && #[trigger] records[i].owner@ == owner;
            assert(grown[i + 1].owner@ == owner);
        }
    }
    assert forall|i: int, j: int| 0 <= i < grown.len() && 0 <= j < grown.len() && i != j implies {
        &&& #[trigger] grown[i].owner@ != #[trigger] grown[j].owner@
        &&& grown[i].account@ != grown[j].account@
    } by {
        if i > 0 {
            assert(grown[i] == records[i - 1]);
            assert(before.contains_key(records[i - 1].owner@));
            assert(records[i - 1].account@ == grown[i].account@);
        }
        if j > 0 {
            assert(grown[j] == records[j - 1]);
            assert(before.contains_key(records[j - 1].owner@));
            assert(records[j - 1].account@ == grown[j].account@);
        }
        if i > 0 && j > 0 {
            assert(records[i - 1].owner@ != records[j - 1].owner@);
        }
    }
}

/// An account whose owner or address another account of the records has
/// cannot join them.
pub proof fn lemma_repeated_account(
    before: Map<Seq<char>, Account>,
    records: Seq<Account>,
    account: Account,
)
    requires
        holds_accounts(before, records),
        before.contains_key(account.owner@) || address_occurs(records, account.account@),
    ensures
        !distinct_accounts(seq![account] + records),
{
    let grown = seq![account] + records;
    if before.contains_key(account.owner@) {
        let i = choose|i: int|
            0 <= i < records.len() && #[trigger] records[i].owner@ == account.owner@;
        assert(grown[i + 1].owner@ == grown[0].owner@);
    } else {
        let i = choose|i: int|
            0 <= i < records.len() && #[trigger] records[i].account@ == account.account@;
        assert(grown[i + 1].account@ == grown[0].account@);
        assert(grown[i + 1].owner@ == records[i].owner@);
    }
}

/// The addresses of the records with one more account before them.
pub proof fn lemma_address_occurs_step(records: Seq<Account>, account: Account, address: Seq<char>)
    ensures
        address_occurs(seq![account] + records, address) == (address_occurs(records, address)
            || address == account.account@),
{
    let grown = seq![account] + records;
    if address_occurs(grown, address) {
        let i = choose|i: int| 0 <= i < grown.len() && #[trigger] grown[i].account@ == address;
        if i > 0 {
            assert(records[i - 1].account@ == address);
        }
    }
    if address_occurs(records, address) {
        let i = choose|i: int| 0 <= i < records.len() && #[trigger] records[i].account@ == address;
        assert(grown[i + 1].account@ == address);
    }
    if address == account.account@ {
        assert(grown[0].account@ == address);
    }
}

/// Accounts that are distinct stay so from any place on.
pub proof fn lemma_distinct_accounts_from(records: Seq<Account>, from: int)
    requires
        0 <= from <= records.len(),
        distinct_accounts(records),
    ensures
        distinct_accounts(records.skip(from)),
{
    let rest = records.skip(from);
    assert forall|i: int, j: int| 0 <= i < rest.len() && 0 <= j < rest.len() && i != j implies {
        &&& #[trigger] rest[i].owner@ != #[trigger] rest[j].owner@
        &&& rest[i].account@ != rest[j].account@
    } by {
        assert(records[from + i].owner@ != records[from + j].owner@);
    }
}

/// Fills the empty collection `jobs` with `records`, where they fit.
fn fill_jobs(jobs: JobMap, records: Vec<Job>, done: bool, next_id: u64, taken: &JobMap) -> (r:
    Option<JobMap>)
    requires
        jobs.wf(),
        jobs@ == Map::<u64, Job>::empty(),
    ensures
        r is Some <==> jobs_fit(records@, done, next_id, taken@),
        r matches Some(filled) ==> filled.wf() && holds_jobs(filled@, records@),
{
    let mut jobs = jobs;
    let mut rest = records;
    proof {
        assert(records@.skip(records@.len() as int) =~= Seq::<Job>::empty());
    }
    while rest.len() > 0
        invariant
            rest@.len() <= records@.len(),
            rest@ == records@.take(rest@.len() as int),
            jobs.wf(),
            holds_jobs(jobs@, records@.skip(rest@.len() as int)),
            jobs_fit(records@.skip(rest@.len() as int), done, next_id, taken@),
        decreases rest@.len(),
    {
        let ghost taken_in = records@.skip(rest@.len() as int);
        let job = rest.pop().unwrap();
        let ghost place = rest@.len() as int;
        proof {
            assert(job == records@[place]);
            assert(rest@ =~= records@.take(place));
            assert(records@.skip(place) =~= seq![job] + taken_in);
        }
        let fits = matches!(job.status, JobStatus::Pending) != done && 1 <= job.id && job.id
            < next_id && !taken.has(job.id);
        if !fits || jobs.has(job.id) {
            proof {
                if jobs_fit(records@, done, next_id, taken@) {
                    lemma_jobs_fit_from(records@, place, done, next_id, taken@);
                    assert(job_fits(records@.skip(place)[0], done, next_id, taken@));
                    lemma_repeated_job(jobs@, taken_in, job);
                }
            }
            return None;
        }
        proof {
            lemma_holds_jobs_step(jobs@, taken_in, job);
            let next = seq![job] + taken_in;
            assert forall|i: int| 0 <= i < next.len() implies job_fits(
                #[trigger] next[i],
                done,
                next_id,
                taken@,
            ) by {
                if i > 0 {
                    assert(next[i] == taken_in[i - 1]);
                }
            }
        }
        jobs.save(job);
    }
    proof {
        assert(records@.skip(0) =~= records@);
    }
    Some(jobs)
}

/// Fills the empty collection `accounts` with `records`, where no two of
/// them share an owner or an address.
fn fill_accounts(accounts: AccountMap, records: Vec<Account>) -> (r: Option<AccountMap>)
    requires
        accounts.wf(),
        accounts@ == Map::<Seq<char>, Account>::empty(),
        forall|address: Seq<char>| !accounts.holds_address(address),
    ensures
        r is Some <==> distinct_accounts(records@),
        r matches Some(filled) ==> filled.wf() && holds_accounts(filled@, records@),
{
    let mut accounts = accounts;
    let mut rest = records;
    proof {
        assert(records@.skip(records@.len() as int) =~= Seq::<Account>::empty());
    }
    while rest.len() > 0
        invariant
            rest@.len() <= records@.len(),
            rest@ == records@.take(rest@.len() as int),
            accounts.wf(),
            holds_accounts(accounts@, records@.skip(rest@.len() as int)),
            distinct_accounts(records@.skip(rest@.len() as int)),
            forall|address: Seq<char>|
                accounts.holds_address(address) == address_occurs(
                    records@.skip(rest@.len() as int),
                    address,
                ),
        decreases rest@.len(),
    {
        let ghost taken_in = records@.skip(rest@.len() as int);
        let ghost before = accounts;
        let account = rest.pop().unwrap();
        let ghost place = rest@.len() as int;
        proof {
            assert(account == records@[place]);
            assert(rest@ =~= records@.take(place));
            assert(records@.skip(place) =~= seq![account] + taken_in);
        }
        match accounts.save(account) {
            Err(_) => {
                proof {
                    if distinct_accounts(records@) {
                        lemma_distinct_accounts_from(records@, place);
                        lemma_repeated_account(before@, taken_in, account);
                    }
                }
                return None;
            },
            Ok(()) => {
                proof {
                    lemma_holds_accounts_step(before@, taken_in, account);
                    assert forall|address: Seq<char>|
                        accounts.holds_address(address) == address_occurs(
                            seq![account] + taken_in,
                            address,
                        ) by {
                        lemma_address_occurs_step(taken_in, account, address);
                    }
                }
            },
        }
    }
    proof {
        assert(records@.skip(0) =~= records@);
    }
    Some(accounts)
}

impl Controller {
    /// Puts a controller together from records kept elsewhere, where they
    /// can stand together; `InvalidState` where they cannot.
    pub fn restore(
        state: State,
        config: Config,
        pending: Vec<Job>,
        finished: Vec<Job>,
        accounts: Vec<Account>,
    ) -> (r: Result<Controller, ContractError>)
        ensures
            r is Ok <==> restorable(state, pending@, finished@, accounts@),
            r matches Err(e) ==> e == ContractError::InvalidState,
            r matches Ok(controller) ==> {
                &&& controller.wf()
                &&& controller@.state == state
                &&& controller@.config == config
                &&& holds_jobs(controller@.pending, pending@)
                &&& holds_jobs(controller@.finished, finished@)
                &&& holds_accounts(controller@.accounts, accounts@)
            },
    {
        if state.current_job_id < 1 {
            return Err(ContractError::InvalidState);
        }
        let none = FINISHED_JOBS();
        let pending_jobs = match fill_jobs(
            PENDING_JOBS(),
            pending,
            false,
            state.current_job_id,
            &none,
        ) {
            Some(jobs) => jobs,
            None => {
                return Err(ContractError::InvalidState);
            },
        };
        let finished_jobs = match fill_jobs(
            none,
            finished,
            true,
            state.current_job_id,
            &pending_jobs,
        ) {
            Some(jobs) => jobs,
            None => {
                proof {
                    lemma_jobs_apart(pending_jobs@, pending@, finished@);
                }
                return Err(ContractError::InvalidState);
            },
        };
        proof {
            lemma_jobs_apart(pending_jobs@, pending@, finished@);
        }
        let held = match fill_accounts(ACCOUNTS(), accounts) {
            Some(held) => held,
            None => {
                return Err(ContractError::InvalidState);
            },
        };
        let controller = Controller {
            state,
            config,
            pending: pending_jobs,
            finished: finished_jobs,
            accounts: held,
        };
        proof {
            lemma_restored_consistent(controller@, pending@, finished@);
        }
        Ok(controller)
    }
}

/// No finished record has the id of a job of `taken` exactly where no
/// finished record has the id of a pending one.
pub proof fn lemma_jobs_apart(taken: Map<u64, Job>, pending: Seq<Job>, finished: Seq<Job>)
    requires
        holds_jobs(taken, pending),
    ensures
        (forall|j: int| 0 <= j < finished.len() ==> !taken.contains_key(#[trigger] finished[j].id))
            <==> (forall|i: int, j: int|
            0 <= i < pending.len() && 0 <= j < finished.len() ==> #[trigger] pending[i].id
                != #[trigger] finished[j].id),
{
    if forall|j: int| 0 <= j < finished.len() ==> !taken.contains_key(#[trigger] finished[j].id) {
        assert forall|i: int, j: int|
            0 <= i < pending.len() && 0 <= j < finished.len() implies #[trigger] pending[i].id
            != #[trigger] finished[j].id by {
            assert(taken.contains_key(pending[i].id));
            assert(!taken.contains_key(finished[j].id));
        }
    }
    if forall|i: int, j: int|
        0 <= i < pending.len() && 0 <= j < finished.len() ==> #[trigger] pending[i].id
            != #[trigger] finished[j].id {
        assert forall|j: int| 0 <= j < finished.len() implies !taken.contains_key(
            #[trigger] finished[j].id,
        ) by {
            if taken.contains_key(finished[j].id) {
                let i = choose|i: int|
                    0 <= i < pending.len() && #[trigger] pending[i].id == finished[j].id;
                assert(pending[i].id != finished[j].id);
            }
        }
    }
}

/// Records that fit agree with one another once they are taken in.
pub proof fn lemma_restored_consistent(
    controller: ControllerView,
    pending: Seq<Job>,
    finished: Seq<Job>,
)
    requires
        controller.state.current_job_id >= 1,
        holds_jobs(controller.pending, pending),
        holds_jobs(controller.finished, finished),
        jobs_fit(pending, false, controller.state.current_job_id, Map::<u64, Job>::empty()),
        jobs_fit(finished, true, controller.state.current_job_id, controller.pending),
    ensures
        controller.consistent(),
{
    assert forall|id: u64| #[trigger] controller.pending.contains_key(id) implies {
        &&& !controller.finished.contains_key(id)
        &&& controller.pending[id].id == id
        &&& controller.pending[id].status == JobStatus::Pending
        &&& 1 <= id < controller.state.current_job_id
    } by {
        let i = choose|i: int| 0 <= i < pending.len() && #[trigger] pending[i].id == id;
        assert(job_fits(pending[i], false, controller.state.current_job_id, Map::empty()));
        if controller.finished.contains_key(id) {
            let j = choose|j: int| 0 <= j < finished.len() && #[trigger] finished[j].id == id;
            assert(job_fits(finished[j], true, controller.state.current_job_id, controller.pending));
        }
    }
    assert forall|id: u64| #[trigger] controller.finished.contains_key(id) implies {
        &&& controller.finished[id].id == id
        &&& controller.finished[id].status.is_final()
        &&& 1 <= id < controller.state.current_job_id
    } by {
        let j = choose|j: int| 0 <= j < finished.len() && #[trigger] finished[j].id == id;
        assert(job_fits(finished[j], true, controller.state.current_job_id, controller.pending));
    }
}

} // verus!

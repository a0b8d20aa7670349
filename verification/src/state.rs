use vstd::prelude::*;
use crate::error::ContractError;
use crate::job::{Account, Job};
use vstd::string::StringExecFns;

verus! {

/// The most entries that one page of a listing holds.
pub const QUERY_PAGE_SIZE: u32 = 50;

/// A place in a secondary ordering of jobs. Places are compared by the first
/// part, then by the second, which is the job's id.
pub type JobKey = (u128, u64);

/// Some job of `jobs` has the id `id`.
pub open spec fn occurs(jobs: Seq<Job>, id: u64) -> bool {
    exists|i: int| 0 <= i < jobs.len() && #[trigger] jobs[i].id == id
}

/// A place at which `jobs` holds a job with the id `id`, where there is one.
pub open spec fn place_of(jobs: Seq<Job>, id: u64) -> int {
    choose|i: int| 0 <= i < jobs.len() && #[trigger] jobs[i].id == id
}

/// No two jobs of `jobs` share an id.
pub open spec fn distinct_ids(jobs: Seq<Job>) -> bool {
    forall|i: int, j: int|
        0 <= i < jobs.len() && 0 <= j < jobs.len() && i != j ==> #[trigger] jobs[i].id
            != #[trigger] jobs[j].id
}

/// The jobs of `jobs`, each under its id.
pub open spec fn jobs_by_id(jobs: Seq<Job>) -> Map<u64, Job> {
    Map::new(|id: u64| occurs(jobs, id), |id: u64| jobs[place_of(jobs, id)])
}

/// In a list without repeated ids, a job is found under its own id.
pub proof fn lemma_found_at(jobs: Seq<Job>, place: int)
    requires
        distinct_ids(jobs),
        0 <= place < jobs.len(),
    ensures
        occurs(jobs, jobs[place].id),
        place_of(jobs, jobs[place].id) == place,
        jobs_by_id(jobs)[jobs[place].id] == jobs[place],
{
    let id = jobs[place].id;
    assert(jobs[place].id == id);
    let chosen = place_of(jobs, id);
    if chosen != place {
        assert(jobs[chosen].id != jobs[place].id);
    }
}

/// Adding a job with a new id adds it to the map and keeps ids distinct.
pub proof fn lemma_push_job(jobs: Seq<Job>, job: Job)
    requires
        distinct_ids(jobs),
        !occurs(jobs, job.id),
    ensures
        distinct_ids(jobs.push(job)),
        jobs_by_id(jobs.push(job)) == jobs_by_id(jobs).insert(job.id, job),
{
    let grown = jobs.push(job);
    assert forall|i: int, j: int|
        0 <= i < grown.len() && 0 <= j < grown.len() && i != j implies #[trigger] grown[i].id
        != #[trigger] grown[j].id by {
        if i < jobs.len() {
            assert(jobs[i].id == grown[i].id);
        }
        if j < jobs.len() {
            assert(jobs[j].id == grown[j].id);
        }
    }
    assert forall|id: u64| #[trigger] occurs(grown, id) == (occurs(jobs, id) || id == job.id) by {
        if occurs(grown, id) {
            let i = place_of(grown, id);
            if i < jobs.len() {
                assert(jobs[i].id == id);
            }
        }
        if occurs(jobs, id) {
            let i = place_of(jobs, id);
            assert(grown[i].id == id);
        }
        if id == job.id {
            assert(grown[jobs.len() as int].id == id);
        }
    }
    assert forall|id: u64| occurs(grown, id) implies #[trigger] jobs_by_id(grown)[id]
        == jobs_by_id(jobs).insert(job.id, job)[id] by {
        let i = place_of(grown, id);
        lemma_found_at(grown, i);
        if i < jobs.len() {
            assert(jobs[i].id == id);
            lemma_found_at(jobs, i);
        }
    }
    assert(jobs_by_id(grown) =~= jobs_by_id(jobs).insert(job.id, job));
}

/// Taking a job out takes it out of the map and keeps ids distinct.
pub proof fn lemma_remove_job(jobs: Seq<Job>, place: int)
    requires
        distinct_ids(jobs),
        0 <= place < jobs.len(),
    ensures
        distinct_ids(jobs.remove(place)),
        jobs_by_id(jobs.remove(place)) == jobs_by_id(jobs).remove(jobs[place].id),
{
    let rest = jobs.remove(place);
    let gone = jobs[place].id;
    let shift = |i: int|
        if i < place {
            i
        } else {
            i + 1
        };
    assert forall|i: int| 0 <= i < rest.len() implies rest[i] == jobs[shift(i)] by {}
    assert forall|i: int, j: int|
        0 <= i < rest.len() && 0 <= j < rest.len() && i != j implies #[trigger] rest[i].id
        != #[trigger] rest[j].id by {
        assert(jobs[shift(i)].id != jobs[shift(j)].id);
    }
    assert forall|id: u64| #[trigger] occurs(rest, id) == (occurs(jobs, id) && id != gone) by {
        if occurs(rest, id) {
            let i = place_of(rest, id);
            assert(jobs[shift(i)].id == id);
            assert(jobs[shift(i)].id != jobs[place].id);
        }
        if occurs(jobs, id) && id != gone {
            let i = place_of(jobs, id);
            if i < place {
                assert(rest[i].id == id);
            } else {
                assert(rest[i - 1].id == id);
            }
        }
    }
    assert forall|id: u64| occurs(rest, id) implies #[trigger] jobs_by_id(rest)[id] == jobs_by_id(
        jobs,
    ).remove(gone)[id] by {
        let i = place_of(rest, id);
        lemma_found_at(rest, i);
        lemma_found_at(jobs, shift(i));
    }
    assert(jobs_by_id(rest) =~= jobs_by_id(jobs).remove(gone));
}

/// A job that is saved is read back as it was saved, field for field.
pub proof fn lemma_saved_job_is_read_back(before: Map<u64, Job>, job: Job)
    ensures
        before.insert(job.id, job).contains_key(job.id),
        before.insert(job.id, job)[job.id] == job,
{
}

/// The secondary orderings of a collection of jobs, by the name under which
/// each is kept.
#[derive(Debug, PartialEq, Eq)]
pub struct JobIndexes {
    /// The ordering by reward and id, in which no two jobs share a place.
    pub reward: String,
    /// The ordering by the time of the last update.
    pub publish_time: String,
}

/// One of the secondary orderings of jobs.
#[derive(Clone, Copy, Debug, PartialEq, Eq, Structural)]
pub enum JobOrder {
    Reward,
    PublishTime,
}

/// The place of `job` in the ordering `order`.
pub open spec fn job_key(job: Job, order: JobOrder) -> JobKey {
    match order {
        JobOrder::Reward => (job.reward, job.id),
        JobOrder::PublishTime => (job.last_update_time as u128, job.id),
    }
}

/// `a` comes before `b`.
pub open spec fn key_before(a: JobKey, b: JobKey) -> bool {
    a.0 < b.0 || (a.0 == b.0 && a.1 < b.1)
}

/// `key` comes after `bound`, where there is a bound.
pub open spec fn key_after(key: JobKey, bound: Option<JobKey>) -> bool {
    match bound {
        Some(b) => key_before(b, key),
        None => true,
    }
}

impl JobIndexes {
    /// The place of `job` in the ordering `order`.
    pub fn key(job: &Job, order: JobOrder) -> (r: JobKey)
        ensures
            r == job_key(*job, order),
    {
        match order {
            JobOrder::Reward => (job.reward, job.id),
            JobOrder::PublishTime => (job.last_update_time as u128, job.id),
        }
    }
}

/// The page lists a job with the id `id`.
pub open spec fn listed(page: Seq<&Job>, id: u64) -> bool {
    exists|k: int| 0 <= k < page.len() && #[trigger] page[k].id == id
}

/// The place after which the next page begins: that of the last job of
/// `page`, or `start_after` for an empty page.
pub open spec fn page_end(page: Seq<&Job>, order: JobOrder, start_after: Option<JobKey>) -> Option<
    JobKey,
> {
    if page.len() == 0 {
        start_after
    } else {
        Some(job_key(*page.last(), order))
    }
}

/// `page` is the page of at most `limit` jobs of `jobs` that follows
/// `start_after` in the ordering `order`: its jobs are jobs of `jobs` that
/// come after `start_after`, in ascending order, and a job of `jobs` after
/// `start_after` that the page leaves out comes after a full page.
pub open spec fn is_page(
    jobs: Map<u64, Job>,
    order: JobOrder,
    start_after: Option<JobKey>,
    limit: nat,
    page: Seq<&Job>,
) -> bool {
    &&& page.len() <= limit
    &&& forall|k: int|
        0 <= k < page.len() ==> {
            &&& jobs.contains_key(#[trigger] page[k].id)
            &&& jobs[page[k].id] == *page[k]
            &&& key_after(job_key(*page[k], order), start_after)
        }
    &&& forall|k: int, l: int|
        0 <= k < l < page.len() ==> key_before(
            job_key(*#[trigger] page[k], order),
            job_key(*#[trigger] page[l], order),
        )
    &&& forall|id: u64|
        #[trigger] jobs.contains_key(id) && key_after(job_key(jobs[id], order), start_after)
            ==> listed(page, id) || (page.len() == limit && key_after(
            job_key(jobs[id], order),
            page_end(page, order, start_after),
        ))
}

/// The pages one after another, as one list.
pub open spec fn joined(pages: Seq<Seq<&Job>>) -> Seq<&Job>
    decreases pages.len(),
{
    if pages.len() == 0 {
        Seq::empty()
    } else {
        pages[0] + joined(pages.drop_first())
    }
}

/// Each of `pages` is the page of at most `limit` jobs that follows the one
/// before it, the first following `start_after`.
pub open spec fn pages_follow(
    jobs: Map<u64, Job>,
    order: JobOrder,
    start_after: Option<JobKey>,
    limit: nat,
    pages: Seq<Seq<&Job>>,
) -> bool
    decreases pages.len(),
{
    pages.len() == 0 || (is_page(jobs, order, start_after, limit, pages[0]) && pages_follow(
        jobs,
        order,
        page_end(pages[0], order, start_after),
        limit,
        pages.drop_first(),
    ))
}

/// The order of places is transitive.
pub proof fn lemma_key_before_transitive(a: JobKey, b: JobKey, c: JobKey)
    requires
        key_before(a, b),
        key_before(b, c),
    ensures
        key_before(a, c),
{
}

/// A page that is not full is the page for any limit that it does not
/// exceed: it leaves no job out.
pub proof fn lemma_short_page(
    jobs: Map<u64, Job>,
    order: JobOrder,
    start_after: Option<JobKey>,
    limit: nat,
    page: Seq<&Job>,
    other: nat,
)
    requires
        is_page(jobs, order, start_after, limit, page),
        page.len() < limit,
        page.len() <= other,
    ensures
        is_page(jobs, order, start_after, other, page),
{
}

/// A page and the page that follows it are together the page of both limits:
/// what the first leaves out, the second begins with.
pub proof fn lemma_page_after_page(
    jobs: Map<u64, Job>,
    order: JobOrder,
    start_after: Option<JobKey>,
    first_limit: nat,
    first: Seq<&Job>,
    second_limit: nat,
    second: Seq<&Job>,
)
    requires
        is_page(jobs, order, start_after, first_limit, first),
        is_page(jobs, order, page_end(first, order, start_after), second_limit, second),
    ensures
        is_page(jobs, order, start_after, first_limit + second_limit, first + second),
        page_end(first + second, order, start_after) == page_end(
            second,
            order,
            page_end(first, order, start_after),
        ),
{
    let both = first + second;
    let middle = page_end(first, order, start_after);
    assert forall|k: int| 0 <= k < first.len() implies both[k] == first[k] by {}
    assert forall|k: int| 0 <= k < second.len() implies both[first.len() + k] == second[k] by {}
    if second.len() == 0 {
        assert(both =~= first);
    } else {
        assert(both.last() == second.last());
    }
    assert forall|k: int| 0 <= k < second.len() implies key_after(
        job_key(*#[trigger] second[k], order),
        start_after,
    ) by {
        assert(jobs.contains_key(second[k].id));
        if first.len() > 0 {
            let last = first[first.len() - 1];
            assert(jobs.contains_key(last.id));
            if let Some(bound) = start_after {
                lemma_key_before_transitive(
                    bound,
                    job_key(*last, order),
                    job_key(*second[k], order),
                );
            }
        }
    }
    assert forall|k: int| 0 <= k < both.len() implies {
        &&& jobs.contains_key(#[trigger] both[k].id)
        &&& jobs[both[k].id] == *both[k]
        &&& key_after(job_key(*both[k], order), start_after)
    } by {
        if k < first.len() {
            assert(jobs.contains_key(first[k].id));
        } else {
            let at = k - first.len();
            assert(both[k] == second[at]);
            assert(jobs.contains_key(second[at].id));
        }
    }
    assert forall|k: int, l: int| 0 <= k < l < both.len() implies key_before(
        job_key(*#[trigger] both[k], order),
        job_key(*#[trigger] both[l], order),
    ) by {
        if l < first.len() {
            assert(key_before(job_key(*first[k], order), job_key(*first[l], order)));
        } else if k >= first.len() {
            let a = k - first.len();
            let b = l - first.len();
            assert(both[k] == second[a]);
            assert(both[l] == second[b]);
            assert(key_before(job_key(*second[a], order), job_key(*second[b], order)));
        } else {
            let b = l - first.len();
            assert(both[l] == second[b]);
            let last = first[first.len() - 1];
            assert(jobs.contains_key(second[b].id));
            assert(key_before(job_key(*last, order), job_key(*second[b], order)));
            if k < first.len() - 1 {
                assert(key_before(job_key(*first[k], order), job_key(*last, order)));
                lemma_key_before_transitive(
                    job_key(*first[k], order),
                    job_key(*last, order),
                    job_key(*second[b], order),
                );
            }
        }
    }
    assert forall|id: u64|
        #[trigger] jobs.contains_key(id) && key_after(
            job_key(jobs[id], order),
            start_after,
        ) implies listed(both, id) || (both.len() == first_limit + second_limit && key_after(
        job_key(jobs[id], order),
        page_end(both, order, start_after),
    )) by {
        if listed(first, id) {
            let k = choose|k: int| 0 <= k < first.len() && #[trigger] first[k].id == id;
            assert(both[k].id == id);
        } else if listed(second, id) {
            let k = choose|k: int| 0 <= k < second.len() && #[trigger] second[k].id == id;
            assert(both[first.len() + k].id == id);
        }
    }
}

/// Pages that follow one another, the last of them not full, are together
/// the page that leaves no job out.
pub proof fn lemma_pages_complete(
    jobs: Map<u64, Job>,
    order: JobOrder,
    start_after: Option<JobKey>,
    limit: nat,
    pages: Seq<Seq<&Job>>,
)
    requires
        pages_follow(jobs, order, start_after, limit, pages),
        pages.len() > 0,
        pages.last().len() < limit,
    ensures
        is_page(jobs, order, start_after, joined(pages).len() + 1, joined(pages)),
    decreases pages.len(),
{
    let first = pages[0];
    let rest = pages.drop_first();
    if pages.len() == 1 {
        assert(joined(rest) =~= Seq::<&Job>::empty());
        assert(joined(pages) =~= first);
        lemma_short_page(jobs, order, start_after, limit, first, first.len() + 1);
    } else {
        let middle = page_end(first, order, start_after);
        assert(rest.last() == pages.last());
        lemma_pages_complete(jobs, order, middle, limit, rest);
        let tail = joined(rest);
        lemma_page_after_page(jobs, order, start_after, limit, first, tail.len() + 1, tail);
        lemma_short_page(
            jobs,
            order,
            start_after,
            limit + tail.len() + 1,
            first + tail,
            (first + tail).len() + 1,
        );
    }
}

/// Asked page after page from the beginning until a page comes back that is
/// not full, the pages together list every job once, in ascending order,
/// and nothing else.
pub proof fn lemma_pages_list_every_job(
    jobs: Map<u64, Job>,
    order: JobOrder,
    limit: nat,
    pages: Seq<Seq<&Job>>,
)
    requires
        forall|id: u64| #[trigger] jobs.contains_key(id) ==> jobs[id].id == id,
        pages_follow(jobs, order, None, limit, pages),
        pages.len() > 0,
        pages.last().len() < limit,
    ensures
        forall|id: u64| #[trigger] jobs.contains_key(id) ==> listed(joined(pages), id),
        forall|k: int|
            0 <= k < joined(pages).len() ==> jobs.contains_key(#[trigger] joined(pages)[k].id)
                && jobs[joined(pages)[k].id] == *joined(pages)[k],
        forall|k: int, l: int|
            0 <= k < l < joined(pages).len() ==> key_before(
                job_key(*#[trigger] joined(pages)[k], order),
                job_key(*#[trigger] joined(pages)[l], order),
            ) && joined(pages)[k].id != joined(pages)[l].id,
{
    lemma_pages_complete(jobs, order, None, limit, pages);
    let all = joined(pages);
    assert forall|k: int, l: int| 0 <= k < l < all.len() implies key_before(
        job_key(*#[trigger] all[k], order),
        job_key(*#[trigger] all[l], order),
    ) && all[k].id != all[l].id by {
        assert(jobs.contains_key(all[k].id));
        assert(jobs.contains_key(all[l].id));
    }
}

/// A collection of jobs, each kept under its id.
pub struct JobMap {
    namespace: String,
    idx: JobIndexes,
    jobs: Vec<Job>,
}

impl View for JobMap {
    type V = Map<u64, Job>;

    closed spec fn view(&self) -> Map<u64, Job> {
        jobs_by_id(self.jobs@)
    }
}

fn before(a: JobKey, b: JobKey) -> (r: bool)
    ensures
        r == key_before(a, b),
{
    a.0 < b.0 || (a.0 == b.0 && a.1 < b.1)
}

impl JobMap {
    /// No two jobs of the collection share an id.
    pub closed spec fn wf(&self) -> bool {
        distinct_ids(self.jobs@)
    }

    /// The name under which the collection is kept.
    pub closed spec fn spec_namespace(&self) -> Seq<char> {
        self.namespace@
    }

    /// The names of the secondary orderings.
    pub closed spec fn spec_idx(&self) -> JobIndexes {
        self.idx
    }

    /// Every job is kept under its own id.
    pub proof fn lemma_keys(&self)
        requires
            self.wf(),
        ensures
            forall|id: u64| #[trigger] self@.contains_key(id) ==> self@[id].id == id,
    {
    }

    /// No two jobs share a place in an ordering: the id, which is part of
    /// every place, tells them apart.
    pub proof fn lemma_places_distinct(&self, order: JobOrder)
        requires
            self.wf(),
        ensures
            forall|a: u64, b: u64|
                #[trigger] self@.contains_key(a) && #[trigger] self@.contains_key(b) && a != b
                    ==> job_key(self@[a], order) != job_key(self@[b], order),
    {
    }

    /// The number of jobs.
    pub fn len(&self) -> (r: usize)
        ensures
            r == self.spec_len(),
    {
        self.jobs.len()
    }

    /// The number of jobs.
    pub closed spec fn spec_len(&self) -> nat {
        self.jobs@.len()
    }

    /// An empty collection kept under `namespace`, its orderings under
    /// `reward` and `publish_time`.
    pub fn new(namespace: &str, reward: &str, publish_time: &str) -> (r: JobMap)
        ensures
            r.wf(),
            r@ == Map::<u64, Job>::empty(),
            r.spec_namespace() == namespace@,
            r.spec_idx().reward@ == reward@,
            r.spec_idx().publish_time@ == publish_time@,
    {
        let r = JobMap {
            namespace: String::from_str(namespace),
            idx: JobIndexes {
                reward: String::from_str(reward),
                publish_time: String::from_str(publish_time),
            },
            jobs: Vec::new(),
        };
        assert(r@ =~= Map::<u64, Job>::empty());
        r
    }

    /// The name under which the collection is kept.
    pub fn namespace(&self) -> (r: &String)
        ensures
            r@ == self.spec_namespace(),
    {
        &self.namespace
    }

    /// The names of the secondary orderings.
    pub fn idx(&self) -> (r: &JobIndexes)
        ensures
            *r == self.spec_idx(),
    {
        &self.idx
    }

    fn find(&self, id: u64) -> (r: Option<usize>)
        ensures
            r matches Some(place) ==> place < self.jobs@.len() && self.jobs@[place as int].id == id,
            r is None ==> !occurs(self.jobs@, id),
    {
        let mut i: usize = 0;
        while i < self.jobs.len()
            invariant
                i <= self.jobs@.len(),
                forall|j: int| 0 <= j < i ==> self.jobs@[j].id != id,
            decreases self.jobs@.len() - i,
        {
            if self.jobs[i].id == id {
                return Some(i);
            }
            i = i + 1;
        }
        None
    }

    /// Whether a job is kept under `id`.
    pub fn has(&self, id: u64) -> (r: bool)
        ensures
            r == self@.contains_key(id),
    {
        match self.find(id) {
            Some(place) => {
                assert(self.jobs@[place as int].id == id);
                true
            },
            None => false,
        }
    }

    /// The job kept under `id`, if there is one.
    pub fn may_load(&self, id: u64) -> (r: Option<&Job>)
        requires
            self.wf(),
        ensures
            r is Some == self@.contains_key(id),
            r matches Some(job) ==> *job == self@[id] && job.id == id,
    {
        match self.find(id) {
            Some(place) => {
                proof {
                    lemma_found_at(self.jobs@, place as int);
                }
                Some(&self.jobs[place])
            },
            None => None,
        }
    }

    /// The job kept under `id`; `JobNotFound` if there is none.
    pub fn load(&self, id: u64) -> (r: Result<&Job, ContractError>)
        requires
            self.wf(),
        ensures
            r is Ok == self@.contains_key(id),
            r matches Ok(job) ==> *job == self@[id] && job.id == id,
            r matches Err(e) ==> e == ContractError::JobNotFound,
    {
        match self.may_load(id) {
            Some(job) => Ok(job),
            None => Err(ContractError::JobNotFound),
        }
    }

    /// Takes out the job kept under `id`, if there is one, and hands it over.
    pub fn remove(&mut self, id: u64) -> (r: Option<Job>)
        requires
            old(self).wf(),
        ensures
            final(self).wf(),
            final(self)@ == old(self)@.remove(id),
            final(self).spec_namespace() == old(self).spec_namespace(),
            final(self).spec_idx() == old(self).spec_idx(),
            r is Some == old(self)@.contains_key(id),
            r matches Some(job) ==> job == old(self)@[id] && job.id == id,
    {
        match self.find(id) {
            Some(place) => {
                proof {
                    lemma_found_at(self.jobs@, place as int);
                    lemma_remove_job(self.jobs@, place as int);
                }
                Some(self.jobs.remove(place))
            },
            None => {
                assert(self@ =~= self@.remove(id));
                None
            },
        }
    }

    /// The index of the first job in `order` among those after `bound`.
    fn next_after(&self, order: JobOrder, bound: Option<JobKey>) -> (r: Option<usize>)
        ensures
            r is None ==> forall|j: int|
                0 <= j < self.jobs@.len() ==> !key_after(
                    job_key(#[trigger] self.jobs@[j], order),
                    bound,
                ),
            r matches Some(b) ==> {
                &&& b < self.jobs@.len()
                &&& key_after(job_key(self.jobs@[b as int], order), bound)
                &&& forall|j: int|
                    0 <= j < self.jobs@.len() && key_after(
                        job_key(#[trigger] self.jobs@[j], order),
                        bound,
                    ) ==> !key_before(
                        job_key(self.jobs@[j], order),
                        job_key(self.jobs@[b as int], order),
                    )
            },
    {
        let mut best: Option<usize> = None;
        let mut i: usize = 0;
        while i < self.jobs.len()
            invariant
                i <= self.jobs@.len(),
                best is None ==> forall|j: int|
                    0 <= j < i ==> !key_after(job_key(#[trigger] self.jobs@[j], order), bound),
                best matches Some(b) ==> {
                    &&& b < i
                    &&& key_after(job_key(self.jobs@[b as int], order), bound)
                    &&& forall|j: int|
                        0 <= j < i && key_after(job_key(#[trigger] self.jobs@[j], order), bound)
                            ==> !key_before(
                            job_key(self.jobs@[j], order),
                            job_key(self.jobs@[b as int], order),
                        )
                },
            decreases self.jobs@.len() - i,
        {
            let key = JobIndexes::key(&self.jobs[i], order);
            let after = match bound {
                Some(b) => before(b, key),
                None => true,
            };
            if after {
                let better = match best {
                    Some(b) => before(key, JobIndexes::key(&self.jobs[b], order)),
                    None => true,
                };
                if better {
                    best = Some(i);
                }
            }
            i = i + 1;
        }
        best
    }

    /// The page of at most `limit` jobs that follows `start_after` in the
    /// ordering `order`.
    pub fn range(&self, order: JobOrder, start_after: Option<JobKey>, limit: u32) -> (page: Vec<
        &Job,
    >)
        requires
            self.wf(),
        ensures
            is_page(self@, order, start_after, limit as nat, page@),
    {
        let mut page: Vec<&Job> = Vec::new();
        let mut bound: Option<JobKey> = start_after;
        let mut open = true;
        while open && page.len() < limit as usize
            invariant
                self.wf(),
                page@.len() <= limit,
                bound == page_end(page@, order, start_after),
                forall|k: int|
                    0 <= k < page@.len() ==> {
                        &&& self@.contains_key(#[trigger] page@[k].id)
                        &&& self@[page@[k].id] == *page@[k]
                        &&& key_after(job_key(*page@[k], order), start_after)
                    },
                forall|k: int, l: int|
                    0 <= k < l < page@.len() ==> key_before(
                        job_key(*#[trigger] page@[k], order),
                        job_key(*#[trigger] page@[l], order),
                    ),
                forall|j: int|
                    0 <= j < self.jobs@.len() && key_after(
                        job_key(#[trigger] self.jobs@[j], order),
                        start_after,
                    ) && !key_after(job_key(self.jobs@[j], order), bound) ==> listed(
                        page@,
                        self.jobs@[j].id,
                    ),
                !open ==> forall|j: int|
                    0 <= j < self.jobs@.len() ==> !key_after(
                        job_key(#[trigger] self.jobs@[j], order),
                        bound,
                    ),
            decreases (if open { 1int } else { 0int }), limit - page@.len(),
        {
            match self.next_after(order, bound) {
                None => {
                    open = false;
                },
                Some(b) => {
                    let job = &self.jobs[b];
                    let ghost before_push = page@;
                    proof {
                        lemma_found_at(self.jobs@, b as int);
                    }
                    page.push(job);
                    bound = Some(JobIndexes::key(job, order));
                    proof {
                        assert(page@.last() == job);
                        assert forall|j: int|
                            0 <= j < self.jobs@.len() && key_after(
                                job_key(#[trigger] self.jobs@[j], order),
                                start_after,
                            ) && !key_after(job_key(self.jobs@[j], order), bound) implies listed(
                            page@,
                            self.jobs@[j].id,
                        ) by {
                            let id = self.jobs@[j].id;
                            if listed(before_push, id) {
                                let k = choose|k: int|
                                    0 <= k < before_push.len() && #[trigger] before_push[k].id
                                        == id;
                                assert(page@[k].id == id);
                            } else {
                                assert(page@[page@.len() - 1].id == id);
                            }
                        }
                        assert forall|k: int, l: int| 0 <= k < l < page@.len() implies key_before(
                            job_key(*#[trigger] page@[k], order),
                            job_key(*#[trigger] page@[l], order),
                        ) by {
                            if l == page@.len() - 1 {
                                assert(before_push[k] == page@[k]);
                                if k < before_push.len() - 1 {
                                    assert(key_before(
                                        job_key(*before_push[k], order),
                                        job_key(*before_push[before_push.len() - 1], order),
                                    ));
                                }
                            } else {
                                assert(before_push[k] == page@[k]);
                                assert(before_push[l] == page@[l]);
                            }
                        }
                    }
                },
            }
        }
        proof {
            assert forall|id: u64|
                #[trigger] self@.contains_key(id) && key_after(
                    job_key(self@[id], order),
                    start_after,
                ) implies listed(page@, id) || (page@.len() == limit && key_after(
                job_key(self@[id], order),
                page_end(page@, order, start_after),
            )) by {
                let j = place_of(self.jobs@, id);
                lemma_found_at(self.jobs@, j);
            }
        }
        page
    }

    /// Keeps `job` under its id, in place of what was kept there.
    pub fn save(&mut self, job: Job)
        requires
            old(self).wf(),
        ensures
            final(self).wf(),
            final(self)@ == old(self)@.insert(job.id, job),
            final(self).spec_namespace() == old(self).spec_namespace(),
            final(self).spec_idx() == old(self).spec_idx(),
    {
        let _ = self.remove(job.id);
        proof {
            assert(!self@.contains_key(job.id));
            assert(!occurs(self.jobs@, job.id));
            lemma_push_job(self.jobs@, job);
            assert(old(self)@.remove(job.id).insert(job.id, job) =~= old(self)@.insert(job.id, job));
        }
        self.jobs.push(job);
    }
}

/// Some account of `accounts` belongs to `owner`.
pub open spec fn owner_occurs(accounts: Seq<Account>, owner: Seq<char>) -> bool {
    exists|i: int| 0 <= i < accounts.len() && #[trigger] accounts[i].owner@ == owner
}

/// Some account of `accounts` has the address `address`.
pub open spec fn address_occurs(accounts: Seq<Account>, address: Seq<char>) -> bool {
    exists|i: int| 0 <= i < accounts.len() && #[trigger] accounts[i].account@ == address
}

/// A place at which `accounts` holds the account of `owner`, where there is
/// one.
pub open spec fn place_of_owner(accounts: Seq<Account>, owner: Seq<char>) -> int {
    choose|i: int| 0 <= i < accounts.len() && #[trigger] accounts[i].owner@ == owner
}

/// No two accounts share an owner, and no two share an address.
pub open spec fn distinct_accounts(accounts: Seq<Account>) -> bool {
    forall|i: int, j: int|
        0 <= i < accounts.len() && 0 <= j < accounts.len() && i != j ==> {
            &&& #[trigger] accounts[i].owner@ != #[trigger] accounts[j].owner@
            &&& accounts[i].account@ != accounts[j].account@
        }
}

/// The accounts of `accounts`, each under its owner.
pub open spec fn accounts_by_owner(accounts: Seq<Account>) -> Map<Seq<char>, Account> {
    Map::new(
        |owner: Seq<char>| owner_occurs(accounts, owner),
        |owner: Seq<char>| accounts[place_of_owner(accounts, owner)],
    )
}

/// In a list without repeated owners, an account is found under its owner.
pub proof fn lemma_account_found_at(accounts: Seq<Account>, place: int)
    requires
        distinct_accounts(accounts),
        0 <= place < accounts.len(),
    ensures
        owner_occurs(accounts, accounts[place].owner@),
        place_of_owner(accounts, accounts[place].owner@) == place,
        accounts_by_owner(accounts)[accounts[place].owner@] == accounts[place],
{
    let owner = accounts[place].owner@;
    assert(accounts[place].owner@ == owner);
    let chosen = place_of_owner(accounts, owner);
    if chosen != place {
        assert(accounts[chosen].owner@ != accounts[place].owner@);
    }
}

/// Adding an account with a new owner and a new address adds it to the map
/// and keeps owners and addresses distinct.
pub proof fn lemma_push_account(accounts: Seq<Account>, account: Account)
    requires
        distinct_accounts(accounts),
        !owner_occurs(accounts, account.owner@),
        !address_occurs(accounts, account.account@),
    ensures
        distinct_accounts(accounts.push(account)),
        accounts_by_owner(accounts.push(account)) == accounts_by_owner(accounts).insert(
            account.owner@,
            account,
        ),
{
    let grown = accounts.push(account);
    assert forall|i: int, j: int|
        0 <= i < grown.len() && 0 <= j < grown.len() && i != j implies {
        &&& #[trigger] grown[i].owner@ != #[trigger] grown[j].owner@
        &&& grown[i].account@ != grown[j].account@
    } by {
        if i < accounts.len() {
            assert(accounts[i].owner@ == grown[i].owner@);
            assert(accounts[i].account@ == grown[i].account@);
        }
        if j < accounts.len() {
            assert(accounts[j].owner@ == grown[j].owner@);
            assert(accounts[j].account@ == grown[j].account@);
        }
    }
    assert forall|owner: Seq<char>| #[trigger]
        owner_occurs(grown, owner) == (owner_occurs(accounts, owner) || owner
            == account.owner@) by {
        if owner_occurs(grown, owner) {
            let i = place_of_owner(grown, owner);
            if i < accounts.len() {
                assert(accounts[i].owner@ == owner);
            }
        }
        if owner_occurs(accounts, owner) {
            let i = place_of_owner(accounts, owner);
            assert(grown[i].owner@ == owner);
        }
        if owner == account.owner@ {
            assert(grown[accounts.len() as int].owner@ == owner);
        }
    }
    assert forall|owner: Seq<char>| owner_occurs(grown, owner) implies #[trigger] accounts_by_owner(
        grown,
    )[owner] == accounts_by_owner(accounts).insert(account.owner@, account)[owner] by {
        let i = place_of_owner(grown, owner);
        lemma_account_found_at(grown, i);
        if i < accounts.len() {
            assert(accounts[i].owner@ == owner);
            lemma_account_found_at(accounts, i);
        }
    }
    assert(accounts_by_owner(grown) =~= accounts_by_owner(accounts).insert(
        account.owner@,
        account,
    ));
}

/// The secondary ordering of the collection of accounts, by the name under
/// which it is kept.
#[derive(Debug, PartialEq, Eq)]
pub struct AccountIndexes {
    /// The ordering by address, in which no two accounts share a place.
    pub account: String,
}

/// The collection of accounts, each kept under its owner.
pub struct AccountMap {
    namespace: String,
    idx: AccountIndexes,
    accounts: Vec<Account>,
}

impl View for AccountMap {
    type V = Map<Seq<char>, Account>;

    closed spec fn view(&self) -> Map<Seq<char>, Account> {
        accounts_by_owner(self.accounts@)
    }
}

impl AccountMap {
    /// No two accounts of the collection share an owner or an address.
    pub closed spec fn wf(&self) -> bool {
        distinct_accounts(self.accounts@)
    }

    /// The name under which the collection is kept.
    pub closed spec fn spec_namespace(&self) -> Seq<char> {
        self.namespace@
    }

    /// The name of the secondary ordering.
    pub closed spec fn spec_idx(&self) -> AccountIndexes {
        self.idx
    }

    /// Some account of the collection has the address `address`.
    pub closed spec fn holds_address(&self, address: Seq<char>) -> bool {
        address_occurs(self.accounts@, address)
    }

    /// An address is held exactly when some owner's account has it.
    pub proof fn lemma_holds_address(&self, address: Seq<char>)
        requires
            self.wf(),
        ensures
            self.holds_address(address) <==> exists|owner: Seq<char>|
                #[trigger] self@.contains_key(owner) && self@[owner].account@ == address,
    {
        if self.holds_address(address) {
            let i = choose|i: int|
                0 <= i < self.accounts@.len() && #[trigger] self.accounts@[i].account@ == address;
            lemma_account_found_at(self.accounts@, i);
            assert(self@.contains_key(self.accounts@[i].owner@));
        }
        if exists|owner: Seq<char>|
            #[trigger] self@.contains_key(owner) && self@[owner].account@ == address {
            let owner = choose|owner: Seq<char>|
                #[trigger] self@.contains_key(owner) && self@[owner].account@ == address;
            let i = place_of_owner(self.accounts@, owner);
            assert(self.accounts@[i].account@ == address);
        }
    }

    /// An empty collection kept under `namespace`, its ordering by address
    /// under `account`.
    pub fn new(namespace: &str, account: &str) -> (r: AccountMap)
        ensures
            r.wf(),
            r@ == Map::<Seq<char>, Account>::empty(),
            r.spec_namespace() == namespace@,
            r.spec_idx().account@ == account@,
            forall|address: Seq<char>| !r.holds_address(address),
    {
        let r = AccountMap {
            namespace: String::from_str(namespace),
            idx: AccountIndexes { account: String::from_str(account) },
            accounts: Vec::new(),
        };
        assert(r@ =~= Map::<Seq<char>, Account>::empty());
        r
    }

    /// The name under which the collection is kept.
    pub fn namespace(&self) -> (r: &String)
        ensures
            r@ == self.spec_namespace(),
    {
        &self.namespace
    }

    /// The name of the secondary ordering.
    pub fn idx(&self) -> (r: &AccountIndexes)
        ensures
            *r == self.spec_idx(),
    {
        &self.idx
    }

    fn find(&self, owner: &String) -> (r: Option<usize>)
        ensures
            r matches Some(place) ==> place < self.accounts@.len()
                && self.accounts@[place as int].owner@ == owner@,
            r is None ==> !owner_occurs(self.accounts@, owner@),
    {
        let mut i: usize = 0;
        while i < self.accounts.len()
            invariant
                i <= self.accounts@.len(),
                forall|j: int| 0 <= j < i ==> self.accounts@[j].owner@ != owner@,
            decreases self.accounts@.len() - i,
        {
            if self.accounts[i].owner == *owner {
                return Some(i);
            }
            i = i + 1;
        }
        None
    }

    /// Whether `owner` has an account.
    pub fn has(&self, owner: &String) -> (r: bool)
        ensures
            r == self@.contains_key(owner@),
    {
        match self.find(owner) {
            Some(place) => {
                assert(self.accounts@[place as int].owner@ == owner@);
                true
            },
            None => false,
        }
    }

    /// The account of `owner`, if there is one.
    pub fn may_load(&self, owner: &String) -> (r: Option<&Account>)
        requires
            self.wf(),
        ensures
            r is Some == self@.contains_key(owner@),
            r matches Some(account) ==> *account == self@[owner@] && account.owner@ == owner@,
    {
        match self.find(owner) {
            Some(place) => {
                proof {
                    lemma_account_found_at(self.accounts@, place as int);
                }
                Some(&self.accounts[place])
            },
            None => None,
        }
    }

    /// The account with the address `address`, if there is one.
    pub fn load_by_account(&self, address: &String) -> (r: Option<&Account>)
        requires
            self.wf(),
        ensures
            r is Some == self.holds_address(address@),
            r matches Some(account) ==> account.account@ == address@ && self@.contains_key(
                account.owner@,
            ) && self@[account.owner@] == *account,
    {
        let mut i: usize = 0;
        while i < self.accounts.len()
            invariant
                i <= self.accounts@.len(),
                self.wf(),
                forall|j: int| 0 <= j < i ==> self.accounts@[j].account@ != address@,
            decreases self.accounts@.len() - i,
        {
            if self.accounts[i].account == *address {
                proof {
                    lemma_account_found_at(self.accounts@, i as int);
                    assert(self.accounts@[i as int].account@ == address@);
                }
                return Some(&self.accounts[i]);
            }
            i = i + 1;
        }
        None
    }

    /// Registers `account`, unless its owner already has an account or its
    /// address already belongs to one.
    pub fn save(&mut self, account: Account) -> (r: Result<(), ContractError>)
        requires
            old(self).wf(),
        ensures
            final(self).wf(),
            final(self).spec_namespace() == old(self).spec_namespace(),
            final(self).spec_idx() == old(self).spec_idx(),
            r is Err <==> old(self)@.contains_key(account.owner@) || old(self).holds_address(
                account.account@,
            ),
            r matches Err(e) ==> e == ContractError::AccountAlreadyExists && *final(self) == *old(
                self,
            ),
            r is Ok ==> final(self)@ == old(self)@.insert(account.owner@, account),
            r is Ok ==> forall|address: Seq<char>|
                final(self).holds_address(address) == (old(self).holds_address(address) || address
                    == account.account@),
    {
        if self.has(&account.owner) {
            return Err(ContractError::AccountAlreadyExists);
        }
        if self.load_by_account(&account.account).is_some() {
            return Err(ContractError::AccountAlreadyExists);
        }
        proof {
            lemma_push_account(self.accounts@, account);
            let grown = self.accounts@.push(account);
            assert forall|address: Seq<char>|
                address_occurs(grown, address) == (address_occurs(self.accounts@, address)
                    || address == account.account@) by {
                if address_occurs(grown, address) {
                    let i = choose|i: int|
                        0 <= i < grown.len() && #[trigger] grown[i].account@ == address;
                    if i < self.accounts@.len() {
                        assert(self.accounts@[i].account@ == address);
                    }
                }
                if address_occurs(self.accounts@, address) {
                    let i = choose|i: int|
                        0 <= i < self.accounts@.len() && #[trigger] self.accounts@[i].account@
                            == address;
                    assert(grown[i].account@ == address);
                }
                if address == account.account@ {
                    assert(grown[self.accounts@.len() as int].account@ == address);
                }
            }
        }
        self.accounts.push(account);
        Ok(())
    }
}

/// The collection of the jobs that wait for their condition.
#[allow(non_snake_case)]
pub fn PENDING_JOBS() -> (r: JobMap)
    ensures
        r.wf(),
        r@ == Map::<u64, Job>::empty(),
        r.spec_namespace() == "pending_jobs"@,
        r.spec_idx().reward@ == "pending_jobs__reward"@,
        r.spec_idx().publish_time@ == "pending_jobs__publish_timestamp"@,
{
    JobMap::new("pending_jobs", "pending_jobs__reward", "pending_jobs__publish_timestamp")
}

/// The collection of the jobs that have reached a final state.
#[allow(non_snake_case)]
pub fn FINISHED_JOBS() -> (r: JobMap)
    ensures
        r.wf(),
        r@ == Map::<u64, Job>::empty(),
        r.spec_namespace() == "finished_jobs"@,
        r.spec_idx().reward@ == "finished_jobs__reward"@,
        r.spec_idx().publish_time@ == "finished_jobs__publish_timestamp"@,
{
    JobMap::new("finished_jobs", "finished_jobs__reward", "finished_jobs__publish_timestamp")
}

/// The collection of the accounts.
#[allow(non_snake_case)]
pub fn ACCOUNTS() -> (r: AccountMap)
    ensures
        r.wf(),
        r@ == Map::<Seq<char>, Account>::empty(),
        r.spec_namespace() == "accounts"@,
        r.spec_idx().account@ == "accounts__account"@,
        forall|address: Seq<char>| !r.holds_address(address),
{
    AccountMap::new("accounts", "accounts__account")
}

} // verus!

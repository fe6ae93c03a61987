//! The worker engine: one worker per function, and for each worker the
//! decisions of its tasks.

pub mod assignee;
pub mod order;
pub mod reader;
pub mod worker;
pub mod writer;

use crate::fuze::{lemma_fuze_same, Fuze};
use crate::state::worker::{Timeout, Worker, WorkerView};
use crate::text::{decimal, spec_decimal};
use vstd::prelude::*;
use vstd::string::StringExecFns;

verus! {

/// `dashmap::DashMap`, the map that holds the workers. Nothing is known of
/// what is inside one but through the functions below.
#[verifier::external_type_specification]
#[verifier::external_body]
#[verifier::reject_recursive_types(K)]
#[verifier::reject_recursive_types(V)]
#[verifier::reject_recursive_types(S)]
pub struct ExDashMap<K, V, S>(dashmap::DashMap<K, V, S>);

/// What a map of workers holds: the worker under each name.
pub uninterp spec fn spec_workers(map: dashmap::DashMap<String, Worker>) -> Map<Seq<char>, Worker>;

/// No workers at all.
pub open spec fn spec_no_workers() -> Map<Seq<char>, Worker> {
    Map::empty()
}

/// `DashMap::new`: a map that holds nothing. Trusted, not proved.
#[verifier::external_body]
fn workers_new() -> (workers: dashmap::DashMap<String, Worker>)
    ensures
        spec_workers(workers) == spec_no_workers(),
{
    dashmap::DashMap::new()
}

/// `DashMap::insert`: puts `worker` under `name`, in place of what was
/// there, and changes no other entry. Trusted, not proved.
#[verifier::external_body]
fn workers_insert(map: &mut dashmap::DashMap<String, Worker>, name: String, worker: Worker)
    ensures
        spec_workers(*final(map)) == spec_workers(*old(map)).insert(name@, worker),
{
    map.insert(name, worker);
}

/// `DashMap::remove`: takes the worker under `name` out of the map and
/// hands it out, if there is one, and changes no other entry. Trusted, not
/// proved.
#[verifier::external_body]
fn workers_remove(map: &mut dashmap::DashMap<String, Worker>, name: &str) -> (worker: Option<
    Worker,
>)
    ensures
        spec_workers(*final(map)) == spec_workers(*old(map)).remove(name@),
        worker == if spec_workers(*old(map)).dom().contains(name@) {
            Some(spec_workers(*old(map))[name@])
        } else {
            None
        },
{
    map.remove(name).map(|entry| entry.1)
}

/// The engine: the workers by the name of their function, what the workers'
/// ids start with, and a fuze that is burnt when the engine is to end.
pub struct State {
    pub base_id: String,
    pub workers: dashmap::DashMap<String, Worker>,
    pub running: Fuze,
}

/// What the ids of an engine's workers start with: the package, its
/// version and the host.
pub open spec fn spec_base_id(package: Seq<char>, version: Seq<char>, host: Seq<char>) -> Seq<
    char,
> {
    package + "::v"@ + version + "::"@ + host
}

/// The id of a worker: the engine's base id, the function, and the limit of
/// orders in flight.
pub open spec fn spec_client_id(base_id: Seq<char>, name: Seq<char>, concurrency: nat) -> Seq<
    char,
> {
    base_id + "::"@ + name + "="@ + spec_decimal(concurrency)
}

/// A worker as it is when it is started.
pub open spec fn spec_fresh_worker(
    base_id: Seq<char>,
    name: Seq<char>,
    executor: Seq<char>,
    concurrency: nat,
    timeout: Timeout,
) -> WorkerView {
    WorkerView {
        name,
        executor,
        concurrency,
        timeout,
        client_id: spec_client_id(base_id, name, concurrency),
        current_load: 0,
        exit: false,
    }
}

impl State {
    /// The workers of this engine, by the name of their function.
    pub open spec fn spec_all(&self) -> Map<Seq<char>, Worker> {
        spec_workers(self.workers)
    }

    /// An engine without workers, for this package and version on this host.
    pub fn create(package: &str, version: &str, host: &str) -> (state: State)
        ensures
            state.base_id@ == spec_base_id(package@, version@, host@),
            state.spec_all() == spec_no_workers(),
            !state.running.spec_burnt(),
    {
        let mut base_id = String::from_str(package);
        base_id.append("::v");
        base_id.append(version);
        base_id.append("::");
        base_id.append(host);
        State { base_id, workers: workers_new(), running: Fuze::new() }
    }

    /// Whether the engine is to end: whether its fuze is burnt.
    pub fn wait(&self) -> (over: bool)
        ensures
            over == self.running.spec_burnt(),
    {
        self.running.burnt()
    }

    /// Registers a worker for the function `name`: idle, with an unburnt
    /// exit fuze, and with an id made of the engine's base id, the function
    /// and the limit. A worker that was registered under the name before is
    /// replaced.
    pub fn start_worker(&mut self, name: &str, executor: &str, concurrency: usize, timeout: Timeout)
        ensures
            final(self).base_id == old(self).base_id,
            final(self).running == old(self).running,
            final(self).spec_all().dom() == old(self).spec_all().dom().insert(name@),
            final(self).spec_all().remove(name@) == old(self).spec_all().remove(name@),
            final(self).spec_all()[name@]@ == spec_fresh_worker(
                old(self).base_id@,
                name@,
                executor@,
                concurrency as nat,
                timeout,
            ),
            final(self).spec_all()[name@].wf(),
    {
        let mut client_id = self.base_id.clone();
        client_id.append("::");
        client_id.append(name);
        client_id.append("=");
        let limit = decimal(concurrency as u64);
        client_id.append(limit.as_str());
        let worker = Worker {
            name: String::from_str(name),
            executor: String::from_str(executor),
            concurrency,
            timeout,
            client_id,
            current_load: 0,
            exit: Fuze::new(),
        };
        workers_insert(&mut self.workers, String::from_str(name), worker);
        assert(final(self).spec_all().remove(name@) =~= old(self).spec_all().remove(name@));
    }

    /// Burns the exit fuze of the worker for `name`, and says whether there
    /// is such a worker. Nothing else changes.
    pub fn stop_worker(&mut self, name: &str) -> (found: bool)
        ensures
            final(self).base_id == old(self).base_id,
            final(self).running == old(self).running,
            found == old(self).spec_all().dom().contains(name@),
            found ==> final(self).spec_all()[name@].exit.spec_burnt(),
            final(self).spec_all() == if found {
                old(self).spec_all().insert(
                    name@,
                    Worker { exit: Fuze::spec_burnt_out(), ..old(self).spec_all()[name@] },
                )
            } else {
                old(self).spec_all()
            },
    {
        match workers_remove(&mut self.workers, name) {
            Some(worker) => {
                let mut worker = worker;
                worker.exit.burn();
                proof {
                    lemma_fuze_same(worker.exit, Fuze::spec_burnt_out());
                }
                workers_insert(&mut self.workers, String::from_str(name), worker);
                assert(final(self).spec_all() =~= old(self).spec_all().insert(
                    name@,
                    Worker { exit: Fuze::spec_burnt_out(), ..old(self).spec_all()[name@] },
                ));
                true
            },
            None => {
                assert(final(self).spec_all() =~= old(self).spec_all());
                false
            },
        }
    }

    /// Takes the worker for `name` out of the engine, for a task to act on
    /// it; `put` brings it back.
    pub fn take(&mut self, name: &str) -> (worker: Option<Worker>)
        ensures
            final(self).base_id == old(self).base_id,
            final(self).running == old(self).running,
            final(self).spec_all() == old(self).spec_all().remove(name@),
            worker == if old(self).spec_all().dom().contains(name@) {
                Some(old(self).spec_all()[name@])
            } else {
                None
            },
    {
        workers_remove(&mut self.workers, name)
    }

    /// Brings a worker back under the name of its function.
    pub fn put(&mut self, worker: Worker)
        ensures
            final(self).base_id == old(self).base_id,
            final(self).running == old(self).running,
            final(self).spec_all() == old(self).spec_all().insert(worker.name@, worker),
    {
        let name = worker.name.clone();
        workers_insert(&mut self.workers, name, worker);
    }
}

} // verus!

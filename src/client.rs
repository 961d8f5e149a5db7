use vstd::prelude::*;
use crate::job::{JobDesc, WirePayload, encode_payload, field_of, opt_view};

verus! {

/// Which servers a job goes to.
pub enum ServerSelection {
    /// The connected server with the lowest id, if any.
    Local,
    /// Every listed server, each of which must be connected.
    Partial(Vec<u64>),
    /// Every slot of the table, each of which must be connected.
    All,
}

/// The wire record of the selection mode that was used.
#[derive(Clone, Debug)]
pub enum ServersDescriptor {
    Local,
    Part(Vec<u64>),
    All,
}

/// A transport status as the RPC layer reports it.
#[derive(Debug)]
pub struct RpcStatus {
    pub code: i32,
    pub message: String,
}

#[derive(Debug)]
pub enum JobError {
    /// The selection names a server that is not connected; holds its id.
    InvalidConfig(u64),
    /// A submission handshake failed at the transport layer.
    RPCError(RpcStatus),
}

/// The character of a decimal digit.
pub open spec fn digit_char(d: nat) -> char {
    if d == 0 { '0' } else if d == 1 { '1' } else if d == 2 { '2' } else if d == 3 { '3' } else if d
        == 4 { '4' } else if d == 5 { '5' } else if d == 6 { '6' } else if d == 7 { '7' } else if d
        == 8 { '8' } else { '9' }
}

/// The decimal text of `n`, without leading zeros.
pub open spec fn decimal(n: nat) -> Seq<char>
    decreases n,
{
    if n < 10 {
        seq![digit_char(n)]
    } else {
        decimal(n / 10).push(digit_char(n % 10))
    }
}

fn digit_str(d: u64) -> (r: &'static str)
    requires
        d < 10,
    ensures
        r@ == seq![digit_char(d as nat)],
{
    proof {
        reveal_strlit("0");
        reveal_strlit("1");
        reveal_strlit("2");
        reveal_strlit("3");
        reveal_strlit("4");
        reveal_strlit("5");
        reveal_strlit("6");
        reveal_strlit("7");
        reveal_strlit("8");
        reveal_strlit("9");
    }
    if d == 0 { "0" } else if d == 1 { "1" } else if d == 2 { "2" } else if d == 3 { "3" } else if d
        == 4 { "4" } else if d == 5 { "5" } else if d == 6 { "6" } else if d == 7 { "7" } else if d
        == 8 { "8" } else { "9" }
}

fn append_decimal(s: &mut String, n: u64)
    ensures
        final(s)@ == old(s)@ + decimal(n as nat),
    decreases n,
{
    if n >= 10 {
        append_decimal(s, n / 10);
    }
    s.append(digit_str(n % 10));
    assert(final(s)@ =~= old(s)@ + decimal(n as nat));
}

/// The text of an error: which server a refused selection needs, or the
/// transport's message.
pub open spec fn message_of(e: JobError) -> Seq<char> {
    match e {
        JobError::InvalidConfig(id) => "server["@ + decimal(id as nat) + "] not connected"@,
        JobError::RPCError(status) => "RPC error: "@ + status.message@,
    }
}

impl JobError {
    /// The error as text, naming the server that a refused selection needs.
    pub fn message(&self) -> (r: String)
        ensures
            r@ == message_of(*self),
    {
        proof {
            reveal_strlit("server[");
            reveal_strlit("] not connected");
            reveal_strlit("RPC error: ");
        }
        match self {
            JobError::InvalidConfig(id) => {
                let mut s = String::from_str("server[");
                append_decimal(&mut s, *id);
                s.append("] not connected");
                s
            },
            JobError::RPCError(status) => {
                let mut s = String::from_str("RPC error: ");
                s.append(status.message.as_str());
                s
            },
        }
    }
}

/// Identity, sizing and server selection of one job.
pub struct JobConf {
    pub job_id: u64,
    pub job_name: String,
    pub workers: u32,
    pub time_limit: u64,
    pub batch_size: u32,
    pub batch_capacity: u32,
    pub memory_limit: u32,
    pub trace_enable: bool,
    pub servers: ServerSelection,
}

/// The wire configuration record of one job.
#[derive(Clone)]
pub struct JobConfig {
    pub job_id: u64,
    pub job_name: String,
    pub workers: u32,
    pub time_limit: u64,
    pub batch_size: u32,
    pub batch_capacity: u32,
    pub memory_limit: u32,
    pub trace_enable: bool,
    pub servers: ServersDescriptor,
}

/// The wire request of one job.
#[derive(Clone)]
pub struct JobRequest {
    pub conf: JobConfig,
    pub payload: WirePayload,
}

/// A sparse table of connections indexed by server id.
pub struct RPCJobClient<C> {
    conns: Vec<Option<C>>,
}

/// Slot `id` of the table holds a connection.
pub open spec fn connected<C>(conns: Seq<Option<C>>, id: int) -> bool {
    0 <= id < conns.len() && conns[id] is Some
}

/// The slot ids in `0..n`.
pub open spec fn slot_ids(n: nat) -> Seq<usize> {
    Seq::new(n, |i: int| i as usize)
}

/// The server ids of a list, as slot indices.
pub open spec fn as_slots(ids: Seq<u64>) -> Seq<usize> {
    ids.map_values(|id: u64| id as usize)
}

/// The connected slot with the lowest id, if any.
pub open spec fn first_connected<C>(conns: Seq<Option<C>>, i: int) -> bool {
    connected(conns, i) && forall|j: int| 0 <= j < i ==> !connected(conns, j)
}

/// Position `k` of `ids` is the first that names a server without a connection.
pub open spec fn first_missing_at<C>(conns: Seq<Option<C>>, ids: Seq<u64>, k: int) -> bool {
    0 <= k < ids.len() && !connected(conns, ids[k] as int) && forall|j: int|
        0 <= j < k ==> connected(conns, ids[j] as int)
}

/// Slot `i` is the first slot of the table without a connection.
pub open spec fn first_gap<C>(conns: Seq<Option<C>>, i: int) -> bool {
    0 <= i < conns.len() && !connected(conns, i) && forall|j: int|
        0 <= j < i ==> connected(conns, j)
}

/// Every slot of the table holds a connection.
pub open spec fn all_connected<C>(conns: Seq<Option<C>>) -> bool {
    forall|i: int| 0 <= i < conns.len() ==> connected(conns, i)
}

/// Every listed server holds a connection.
pub open spec fn all_listed_connected<C>(conns: Seq<Option<C>>, ids: Seq<u64>) -> bool {
    forall|k: int| 0 <= k < ids.len() ==> connected(conns, ids[k] as int)
}

/// The number of connected slots in the first `n` slots.
pub open spec fn count_connected<C>(conns: Seq<Option<C>>, n: int) -> nat
    decreases n,
{
    if n <= 0 {
        0
    } else {
        count_connected(conns, n - 1) + if connected(conns, n - 1) {
            1nat
        } else {
            0nat
        }
    }
}

/// `t` is the target list that a policy selects from the table, in
/// dispatch order.
pub open spec fn targets_of<C>(conns: Seq<Option<C>>, policy: ServerSelection, t: Seq<usize>) -> bool {
    match policy {
        ServerSelection::Local => t.len() <= 1 && (t.len() == 0 <==> forall|i: int|
            !connected(conns, i)) && (t.len() == 1 ==> first_connected(conns, t[0] as int)),
        ServerSelection::Partial(ids) => all_listed_connected(conns, ids@) && t == as_slots(ids@),
        ServerSelection::All => all_connected(conns) && t == slot_ids(conns.len()),
    }
}

/// A policy is refused because server `id` is the first, in scan order,
/// that it needs and that is not connected.
pub open spec fn rejected_with<C>(conns: Seq<Option<C>>, policy: ServerSelection, id: u64) -> bool {
    match policy {
        ServerSelection::Local => false,
        ServerSelection::Partial(ids) => exists|k: int|
            first_missing_at(conns, ids@, k) && ids@[k] == id,
        ServerSelection::All => first_gap(conns, id as int),
    }
}

/// `d` is the wire record of `policy`.
pub open spec fn describes(policy: ServerSelection, d: ServersDescriptor) -> bool {
    match policy {
        ServerSelection::Local => d is Local,
        ServerSelection::Partial(ids) => d matches ServersDescriptor::Part(l) && l@ == ids@,
        ServerSelection::All => d is All,
    }
}

/// `req` carries every scalar of `conf` verbatim, the wire record `servers`,
/// and the payloads of `job` with each empty buffer omitted.
pub open spec fn request_for(conf: JobConf, servers: ServersDescriptor, job: JobDesc, req: JobRequest) -> bool {
    &&& req.conf.job_id == conf.job_id
    &&& req.conf.job_name@ == conf.job_name@
    &&& req.conf.workers == conf.workers
    &&& req.conf.time_limit == conf.time_limit
    &&& req.conf.batch_size == conf.batch_size
    &&& req.conf.batch_capacity == conf.batch_capacity
    &&& req.conf.memory_limit == conf.memory_limit
    &&& req.conf.trace_enable == conf.trace_enable
    &&& req.conf.servers == servers
    &&& opt_view(req.payload.source) == field_of(job.input@)
    &&& opt_view(req.payload.plan) == field_of(job.plan@)
    &&& opt_view(req.payload.resource) == field_of(job.resource@)
}

/// Builds the one wire request of a job.
pub fn build_request(conf: JobConf, servers: ServersDescriptor, job: JobDesc) -> (r: JobRequest)
    ensures
        request_for(conf, servers, job, r),
{
    let JobConf {
        job_id,
        job_name,
        workers,
        time_limit,
        batch_size,
        batch_capacity,
        memory_limit,
        trace_enable,
        servers: _,
    } = conf;
    let wire_conf = JobConfig {
        job_id,
        job_name,
        workers,
        time_limit,
        batch_size,
        batch_capacity,
        memory_limit,
        trace_enable,
        servers,
    };
    JobRequest { conf: wire_conf, payload: encode_payload(job) }
}

/// What a submission does once its targets are known.
pub enum Dispatch {
    /// No target: the result stream is empty and already closed.
    Empty,
    /// One target: the request goes to this slot and its stream is passed on.
    Single(usize, JobRequest),
    /// Two or more targets: a copy of the request goes to each slot, every
    /// handshake must succeed, and the streams are merged.
    Multi(Vec<usize>, JobRequest),
}

/// The slots that a dispatch sends the request to.
pub open spec fn dispatch_targets(d: Dispatch) -> Seq<usize> {
    match d {
        Dispatch::Empty => Seq::empty(),
        Dispatch::Single(i, _) => seq![i],
        Dispatch::Multi(t, _) => t@,
    }
}

/// The number of requests that a dispatch sends.
pub open spec fn requests_sent(d: Dispatch) -> nat {
    dispatch_targets(d).len()
}

fn copy_ids(ids: &Vec<u64>) -> (r: Vec<u64>)
    ensures
        r@ == ids@,
{
    let mut r: Vec<u64> = Vec::new();
    let mut k: usize = 0;
    while k < ids.len()
        invariant
            k <= ids@.len(),
            r@ == ids@.subrange(0, k as int),
        decreases ids@.len() - k,
    {
        r.push(ids[k]);
        k = k + 1;
    }
    assert(r@ =~= ids@);
    r
}

impl<C> RPCJobClient<C> {
    pub closed spec fn slots(&self) -> Seq<Option<C>> {
        self.conns@
    }

    /// A table with no slots.
    pub fn new() -> (r: Self)
        ensures
            r.slots().len() == 0,
    {
        RPCJobClient { conns: Vec::new() }
    }

    /// Installs `conn` at slot `server_id`, growing the table with empty
    /// slots as needed and replacing any connection held there.
    pub fn connect(&mut self, server_id: u64, conn: C)
        requires
            server_id < usize::MAX,
        ensures
            final(self).slots().len() == if server_id < old(self).slots().len() {
                old(self).slots().len()
            } else {
                server_id as nat + 1
            },
            final(self).slots()[server_id as int] == Some(conn),
            forall|i: int|
                0 <= i < final(self).slots().len() && i != server_id ==> final(self).slots()[i] == if i
                    < old(self).slots().len() {
                    old(self).slots()[i]
                } else {
                    None
                },
    {
        let slot = server_id as usize;
        while self.conns.len() <= slot
            invariant
                slot == server_id,
                slot < usize::MAX,
                old(self).conns@.len() <= self.conns@.len(),
                self.conns@.len() <= slot + 1 || self.conns@.len() == old(self).conns@.len(),
                forall|i: int|
                    0 <= i < self.conns@.len() ==> self.conns@[i] == if i < old(self).conns@.len() {
                        old(self).conns@[i]
                    } else {
                        None
                    },
            decreases slot + 1 - self.conns@.len(),
        {
            self.conns.push(None);
        }
        self.conns.set(slot, Some(conn));
    }

    /// The number of slots, connected or not.
    pub fn num_slots(&self) -> (r: usize)
        ensures
            r == self.slots().len(),
    {
        self.conns.len()
    }

    /// Whether slot `server_id` holds a connection.
    pub fn is_connected(&self, server_id: u64) -> (r: bool)
        ensures
            r == connected(self.slots(), server_id as int),
    {
        if server_id >= self.conns.len() as u64 {
            false
        } else {
            self.conns[server_id as usize].is_some()
        }
    }

    /// The connection at slot `server_id`, if one is held there.
    pub fn get(&self, server_id: usize) -> (r: Option<&C>)
        ensures
            r is Some <==> connected(self.slots(), server_id as int),
            r is Some ==> Some(*r->0) == self.slots()[server_id as int],
    {
        if server_id >= self.conns.len() {
            None
        } else {
            match &self.conns[server_id] {
                Some(c) => Some(c),
                None => None,
            }
        }
    }

    /// The connected slot with the lowest id, or none when no slot is
    /// connected.
    pub fn select_local(&self) -> (r: Vec<usize>)
        ensures
            r@.len() <= 1,
            r@.len() == 0 <==> forall|i: int| !connected(self.slots(), i),
            r@.len() == 1 ==> first_connected(self.slots(), r@[0] as int),
    {
        let mut i: usize = 0;
        while i < self.conns.len()
            invariant
                i <= self.conns@.len(),
                forall|j: int| 0 <= j < i ==> !connected(self.conns@, j),
            decreases self.conns@.len() - i,
        {
            if self.conns[i].is_some() {
                assert(connected(self.slots(), i as int));
                let r = vec![i];
                assert(r@ =~= seq![i]);
                return r;
            }
            i = i + 1;
        }
        Vec::new()
    }

    /// The listed servers as slots, in list order, when each of them is
    /// connected; otherwise the first listed id without a connection.
    pub fn select_partial(&self, ids: &Vec<u64>) -> (r: Result<Vec<usize>, u64>)
        ensures
            r is Ok <==> all_listed_connected(self.slots(), ids@),
            r is Ok ==> r->Ok_0@ == as_slots(ids@),
            r is Err ==> exists|k: int|
                first_missing_at(self.slots(), ids@, k) && ids@[k] == r->Err_0,
    {
        let mut targets: Vec<usize> = Vec::new();
        let mut k: usize = 0;
        while k < ids.len()
            invariant
                k <= ids@.len(),
                all_listed_connected(self.conns@, ids@.subrange(0, k as int)),
                targets@ == as_slots(ids@.subrange(0, k as int)),
            decreases ids@.len() - k,
        {
            let id = ids[k];
            if !self.is_connected(id) {
                assert(first_missing_at(self.conns@, ids@, k as int)) by {
                    assert forall|j: int| 0 <= j < k implies connected(self.conns@, ids@[j] as int) by {
                        assert(ids@.subrange(0, k as int)[j] == ids@[j]);
                    }
                }
                return Err(id);
            }
            targets.push(id as usize);
            k = k + 1;
            assert(as_slots(ids@.subrange(0, k as int)) =~= as_slots(ids@.subrange(0, k - 1)).push(
                id as usize,
            ));
        }
        assert(ids@.subrange(0, k as int) =~= ids@);
        Ok(targets)
    }

    /// Every slot, in ascending order, when each of them is connected;
    /// otherwise the first slot without a connection.
    pub fn select_all(&self) -> (r: Result<Vec<usize>, u64>)
        ensures
            r is Ok <==> all_connected(self.slots()),
            r is Ok ==> r->Ok_0@ == slot_ids(self.slots().len()),
            r is Err ==> first_gap(self.slots(), r->Err_0 as int),
    {
        let mut targets: Vec<usize> = Vec::new();
        let mut i: usize = 0;
        while i < self.conns.len()
            invariant
                i <= self.conns@.len(),
                forall|j: int| 0 <= j < i ==> connected(self.conns@, j),
                targets@ == slot_ids(i as nat),
            decreases self.conns@.len() - i,
        {
            if self.conns[i].is_none() {
                assert(!connected(self.conns@, i as int));
                return Err(i as u64);
            }
            targets.push(i);
            i = i + 1;
            assert(targets@ =~= slot_ids(i as nat));
        }
        Ok(targets)
    }

    /// Resolves a selection policy against the table: the wire record of
    /// the mode and the target slots in dispatch order, or `InvalidConfig`
    /// with the first server in scan order that is not connected. Nothing
    /// is dispatched here.
    pub fn select(&self, policy: &ServerSelection) -> (r: Result<
        (ServersDescriptor, Vec<usize>),
        JobError,
    >)
        ensures
            match r {
                Ok((d, t)) => targets_of(self.slots(), *policy, t@) && describes(*policy, d),
                Err(e) => e matches JobError::InvalidConfig(id) && rejected_with(
                    self.slots(),
                    *policy,
                    id,
                ),
            },
    {
        match policy {
            ServerSelection::Local => Ok((ServersDescriptor::Local, self.select_local())),
            ServerSelection::Partial(ids) => match self.select_partial(ids) {
                Ok(t) => Ok((ServersDescriptor::Part(copy_ids(ids)), t)),
                Err(id) => Err(JobError::InvalidConfig(id)),
            },
            ServerSelection::All => match self.select_all() {
                Ok(t) => Ok((ServersDescriptor::All, t)),
                Err(id) => Err(JobError::InvalidConfig(id)),
            },
        }
    }
}

/// What planning a submission of `job` under `config` yields on a table:
/// the dispatch to the selected targets with the job's request, or the
/// refusal of the selection.
pub open spec fn submit_outcome<C>(conns: Seq<Option<C>>, config: JobConf, job: JobDesc, r: Result<Dispatch, JobError>) -> bool {
    match r {
        Ok(d) => {
            &&& targets_of(conns, config.servers, dispatch_targets(d))
            &&& d matches Dispatch::Single(_, req) ==> exists|s: ServersDescriptor|
                describes(config.servers, s) && request_for(config, s, job, req)
            &&& d matches Dispatch::Multi(t, req) ==> t@.len() >= 2 && exists|s: ServersDescriptor|
                describes(config.servers, s) && request_for(config, s, job, req)
        },
        Err(e) => e matches JobError::InvalidConfig(id) && rejected_with(conns, config.servers, id),
    }
}

/// With the local policy and no connected server, a submission is a no-op:
/// it succeeds with the empty dispatch, whose result stream is closed at
/// once.
pub proof fn lemma_local_without_servers<C>(conns: Seq<Option<C>>, config: JobConf, job: JobDesc, r: Result<Dispatch, JobError>)
    requires
        config.servers is Local,
        forall|i: int| !connected(conns, i),
        submit_outcome(conns, config, job, r),
    ensures
        r matches Ok(Dispatch::Empty),
{
}

/// With a partial policy that lists a server without a connection, a
/// submission fails with `InvalidConfig` naming a listed server that is not
/// connected, and dispatches nothing.
pub proof fn lemma_partial_with_missing_server<C>(conns: Seq<Option<C>>, config: JobConf, job: JobDesc, r: Result<Dispatch, JobError>)
    requires
        config.servers matches ServerSelection::Partial(ids) && exists|k: int|
            0 <= k < ids@.len() && !connected(conns, ids@[k] as int),
        submit_outcome(conns, config, job, r),
    ensures
        r matches Err(JobError::InvalidConfig(id)) && config.servers matches ServerSelection::Partial(
            ids,
        ) && ids@.contains(id) && !connected(conns, id as int),
{
    if let ServerSelection::Partial(ids) = config.servers {
        if let Err(JobError::InvalidConfig(id)) = r {
            let k = choose|k: int| first_missing_at(conns, ids@, k) && ids@[k] == id;
            assert(ids@[k] == id);
        }
    }
}

proof fn lemma_count_all_connected<C>(conns: Seq<Option<C>>, n: int)
    requires
        0 <= n <= conns.len(),
        all_connected(conns),
    ensures
        count_connected(conns, n) == n,
    decreases n,
{
    if n > 0 {
        lemma_count_all_connected(conns, n - 1);
    }
}

/// With the all policy, a submission that goes ahead sends exactly one
/// request per connected slot.
pub proof fn lemma_all_sends_one_per_connection<C>(conns: Seq<Option<C>>, config: JobConf, job: JobDesc, d: Dispatch)
    requires
        config.servers is All,
        submit_outcome(conns, config, job, Ok::<Dispatch, JobError>(d)),
    ensures
        requests_sent(d) == count_connected(conns, conns.len() as int),
{
    lemma_count_all_connected(conns, conns.len() as int);
}

impl<C> RPCJobClient<C> {
    /// Plans a submission: resolves the targets of `config`'s selection and,
    /// when there is at least one, builds the request for them. A refused
    /// selection fails with `InvalidConfig` before anything is sent.
    pub fn submit(&self, config: JobConf, job: JobDesc) -> (r: Result<Dispatch, JobError>)
        ensures
            submit_outcome(self.slots(), config, job, r),
    {
        match self.select(&config.servers) {
            Err(e) => Err(e),
            Ok((servers, targets)) => {
                if targets.len() == 0 {
                    assert(dispatch_targets(Dispatch::Empty) =~= targets@);
                    Ok(Dispatch::Empty)
                } else if targets.len() == 1 {
                    let req = build_request(config, servers, job);
                    let d = Dispatch::Single(targets[0], req);
                    assert(dispatch_targets(d) =~= targets@);
                    Ok(d)
                } else {
                    let req = build_request(config, servers, job);
                    Ok(Dispatch::Multi(targets, req))
                }
            },
        }
    }
}

/// The first failed handshake in dispatch order, if any.
pub open spec fn first_failure<S>(results: Seq<Result<S, RpcStatus>>, k: int) -> bool {
    0 <= k < results.len() && results[k] is Err && forall|j: int| 0 <= j < k ==> results[j] is Ok
}

/// Decides on the handshakes of a multi-target dispatch, given in dispatch
/// order: the streams in that order when every handshake succeeded, else
/// `RPCError` with the status of the first that failed.
pub fn collect_handshakes<S>(results: Vec<Result<S, RpcStatus>>) -> (r: Result<Vec<S>, JobError>)
    ensures
        r is Ok <==> forall|k: int| 0 <= k < results@.len() ==> results@[k] is Ok,
        r matches Ok(v) ==> v@.len() == results@.len() && forall|k: int|
            0 <= k < v@.len() ==> results@[k] == Ok::<S, RpcStatus>(v@[k]),
        r matches Err(e) ==> exists|k: int|
            first_failure(results@, k) && e == JobError::RPCError(results@[k]->Err_0),
{
    let ghost orig = results@;
    let mut rest = results;
    let mut streams: Vec<S> = Vec::new();
    while rest.len() > 0
        invariant
            orig == results@,
            orig.len() == streams@.len() + rest@.len(),
            forall|k: int| 0 <= k < streams@.len() ==> orig[k] == Ok::<S, RpcStatus>(streams@[k]),
            forall|k: int| 0 <= k < rest@.len() ==> orig[streams@.len() + k] == rest@[k],
        decreases rest@.len(),
    {
        let ghost n = streams@.len();
        let ghost before = rest@;
        assert(orig[n as int] == before[0]);
        match rest.remove(0) {
            Ok(s) => {
                streams.push(s);
            },
            Err(status) => {
                assert(first_failure(orig, n as int));
                assert(orig[n as int]->Err_0 == status);
                return Err(JobError::RPCError(status));
            },
        }
    }
    Ok(streams)
}

} // verus!

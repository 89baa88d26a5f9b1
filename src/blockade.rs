use vstd::prelude::*;
use vstd::string::*;

use rand::Rng;

use crate::codec::{
    config_json, command_args_json, decode_list, decode_state, encode_command_args,
    encode_config, encode_net_args, encode_partition_args, list_decodable, list_decodes,
    net_args_json, partition_args_json, state_decodable, state_decodes,
};
use crate::error::BlockadeError;
use crate::json::Json;
use crate::table::{lemma_sorted_unique, strictly_sorted, Table};
use crate::text::lex_lt;
use crate::json::member;
use crate::text::same_text;
use crate::wire::{
    BlockadeCommand, BlockadeCommandArgs, BlockadeConfig, BlockadeNetArgs, BlockadeNetStatus,
    BlockadePartitionArgs, BlockadeState,
};

verus! {

/// The reply body by which the service refuses to create a blockade whose
/// name is taken.
pub const CONFLICT_MESSAGE: &'static str = "Blockade name already exists";

/// The reason given when a blockade is not in the shadow.
pub const NOT_FOUND_MESSAGE: &'static str = "Blockade not found in map";

/// The reason given when a blockade in the shadow has no containers.
pub const NO_CONTAINERS_MESSAGE: &'static str = "No containers to choose from";

/// An HTTP method.
#[derive(Clone, Copy, Debug, PartialEq, Eq, Structural)]
pub enum Method {
    Get,
    Post,
    Delete,
}

/// One HTTP request to make: method, full URL and JSON body.
#[derive(Debug)]
pub struct Call {
    pub method: Method,
    pub url: String,
    pub body: Option<Json>,
}

/// What came of a call.
#[derive(Debug)]
pub enum Outcome {
    /// The service could not be reached; the text says why.
    Unreachable(String),
    /// The service answered; `doc` is the body read as JSON, if it is JSON.
    Replied { status: u16, text: String, doc: Option<Json> },
}

/// A remote operation.
#[derive(Clone, Debug)]
#[allow(inconsistent_fields)]
pub enum Request {
    /// Lists the blockades.
    List,
    /// Fetches one blockade's state.
    Get { name: String },
    /// Creates a blockade from the configuration recorded for its name.
    Create { name: String },
    /// Applies a command to the named containers.
    Command { name: String, args: BlockadeCommandArgs },
    /// Sets the link profile of the named containers.
    NetState { name: String, args: BlockadeNetArgs },
    /// Sets the link profile of every container the shadow knows of.
    NetStateAll { name: String, status: BlockadeNetStatus },
    /// Sets the partitions; containers in no group are left out of all.
    Partition { name: String, args: BlockadePartitionArgs },
    /// Removes all partitions and link profiles.
    Restore { name: String },
    /// Destroys a blockade.
    Delete { name: String },
}

/// What an operation answers once its requests are done.
#[derive(Clone, Debug)]
pub enum Finale {
    Unit,
    /// The sorted container names of the named blockade.
    Names(String),
    /// The container that was picked.
    Chosen(String),
}

/// The answer of a finished operation.
#[derive(Debug)]
pub enum Done {
    Unit,
    Names(Vec<String>),
    Chosen(String),
}

/// What to do next: make a call, or hand back the answer.
#[derive(Debug)]
pub enum Action {
    Send(Call),
    Finish(Result<Done, BlockadeError>),
}

/// How a plan treats failures and listings.
#[derive(Clone, Copy, Debug, PartialEq, Eq, Structural)]
pub enum Mode {
    /// Stops at the first failure.
    Strict,
    /// Like `Strict`, but a name conflict on the first request, a creation,
    /// replaces the plan by destroy, create, fetch.
    Recreate,
    /// After a listing, fetches each listed blockade; stops at the first failure.
    Sweep,
    /// Like `Sweep`, but skips failures; a failed listing ends the plan.
    Warm,
}

/// The requests of an operation in progress.
#[derive(Debug)]
pub struct Plan {
    pub steps: Vec<Request>,
    /// The request in flight, or the next to send.
    pub next: usize,
    pub finale: Finale,
    pub mode: Mode,
}

pub ghost struct PlanView {
    pub steps: Seq<Request>,
    pub next: int,
    pub finale: Finale,
    pub mode: Mode,
}

impl View for Plan {
    type V = PlanView;

    open spec fn view(&self) -> PlanView {
        PlanView { steps: self.steps@, next: self.next as int, finale: self.finale, mode: self.mode }
    }
}

/// Drives a blockade service and keeps a shadow of what it last reported.
///
/// Each operation yields an `Action`; the caller performs each `Send` and hands
/// its `Outcome` to `resume`, until a `Finish` comes.
#[derive(Debug)]
pub struct BlockadeHandler {
    pub host: String,
    pub blockades: Vec<String>,
    pub state: Table<BlockadeState>,
    pub config: Table<BlockadeConfig>,
    pub task: Option<Plan>,
}

pub open spec fn is_success(status: u16) -> bool {
    200 <= status <= 299
}

/// Whether an error is the service's refusal of a taken name.
pub open spec fn is_conflict(e: BlockadeError) -> bool {
    match e {
        BlockadeError::ServerError(s) => s@ == CONFLICT_MESSAGE@,
        _ => false,
    }
}

/// The URL of the blockade collection.
pub open spec fn collection_url(host: Seq<char>) -> Seq<char> {
    host + "/blockade"@
}

/// The URL of a blockade, or of one of its parts.
pub open spec fn blockade_url(host: Seq<char>, name: Seq<char>, part: Seq<char>) -> Seq<char> {
    host + "/blockade/"@ + name + part
}

/// The names of a blockade's containers as the shadow holds them, sorted.
pub open spec fn sorted_names_of(h: BlockadeHandler, name: Seq<char>, names: Seq<String>) -> bool {
    if h.state@.contains_key(name) {
        &&& strictly_sorted(names)
        &&& forall|i: int| 0 <= i < names.len() ==> h.state@[name].containers@.contains_key(#[trigger] names[i]@)
        &&& forall|k: Seq<char>| h.state@[name].containers@.contains_key(k)
            ==> exists|i: int| 0 <= i < names.len() && names[i]@ == k
    } else {
        names.len() == 0
    }
}

/// Whether `c` is the call that carries request `req`.
pub open spec fn call_for(h: BlockadeHandler, req: Request, c: Call) -> bool {
    match req {
        Request::List => c.method == Method::Get && c.url@ == collection_url(h.host@) && c.body is None,
        Request::Get { name } => c.method == Method::Get && c.url@ == blockade_url(h.host@, name@, ""@)
            && c.body is None,
        Request::Create { name } => c.method == Method::Post && c.url@ == blockade_url(h.host@, name@, ""@)
            && match c.body {
                Some(j) => config_json(j, h.config@[name@]),
                None => false,
            },
        Request::Command { name, args } => c.method == Method::Post && c.url@ == blockade_url(
            h.host@,
            name@,
            "/action"@,
        ) && match c.body {
            Some(j) => command_args_json(j, args),
            None => false,
        },
        Request::NetState { name, args } => c.method == Method::Post && c.url@ == blockade_url(
            h.host@,
            name@,
            "/network_state"@,
        ) && match c.body {
            Some(j) => net_args_json(j, args),
            None => false,
        },
        Request::NetStateAll { name, status } => c.method == Method::Post && c.url@ == blockade_url(
            h.host@,
            name@,
            "/network_state"@,
        ) && match c.body {
            Some(j) => exists|a: BlockadeNetArgs| #![trigger net_args_json(j, a)]
                net_args_json(j, a) && a.network_state == status && sorted_names_of(h, name@, a.container_names@),
            None => false,
        },
        Request::Partition { name, args } => c.method == Method::Post && c.url@ == blockade_url(
            h.host@,
            name@,
            "/partitions"@,
        ) && match c.body {
            Some(j) => partition_args_json(j, args),
            None => false,
        },
        Request::Restore { name } => c.method == Method::Delete && c.url@ == blockade_url(
            h.host@,
            name@,
            "/partitions"@,
        ) && c.body is None,
        Request::Delete { name } => c.method == Method::Delete && c.url@ == blockade_url(
            h.host@,
            name@,
            ""@,
        ) && c.body is None,
    }
}

/// Whether `d` is what finale `f` answers in handler state `h`.
pub open spec fn done_for(h: BlockadeHandler, f: Finale, d: Done) -> bool {
    match f {
        Finale::Unit => d is Unit,
        Finale::Names(name) => match d {
            Done::Names(names) => sorted_names_of(h, name@, names@),
            _ => false,
        },
        Finale::Chosen(c) => d == Done::Chosen(c),
    }
}

/// Whether handler `h` goes on with plan `q`: it sends `q`'s next request, or,
/// where none is left, is idle and answers the plan's finale.
pub open spec fn continues(h: BlockadeHandler, r: Action, q: PlanView) -> bool {
    if q.next < q.steps.len() {
        &&& h.task is Some
        &&& h.task->0@ == q
        &&& match r {
            Action::Send(c) => call_for(h, q.steps[q.next], c),
            _ => false,
        }
    } else {
        &&& h.task is None
        &&& match r {
            Action::Finish(Ok(d)) => done_for(h, q.finale, d),
            _ => false,
        }
    }
}

/// The plan after its request in flight succeeded; a listing in a sweep adds
/// a fetch of each listed blockade.
pub open spec fn success_plan(p: PlanView, listed: Seq<String>) -> PlanView {
    let grows = (p.mode == Mode::Sweep || p.mode == Mode::Warm) && p.steps[p.next] is List;
    PlanView {
        steps: if grows {
            p.steps + listed.map_values(|n: String| Request::Get { name: n })
        } else {
            p.steps
        },
        next: p.next + 1,
        ..p
    }
}

/// The plan that replaces a creation refused for a taken name: destroy
/// (fetch, then delete), create again, fetch.
pub open spec fn recreate_plan(p: PlanView) -> PlanView {
    let n = p.steps[0]->Create_name;
    PlanView {
        steps: seq![
            Request::Get { name: n },
            Request::Delete { name: n },
            Request::Create { name: n },
            Request::Get { name: n },
        ],
        next: 0,
        finale: p.finale,
        mode: Mode::Strict,
    }
}

/// Whether a failure of the request in flight leads to a recreation.
pub open spec fn recreates(p: PlanView, e: BlockadeError) -> bool {
    p.mode == Mode::Recreate && p.next == 0 && p.steps[0] is Create && is_conflict(e)
}

/// The plan after a skipped failure: a failed listing ends it.
pub open spec fn skip_plan(p: PlanView) -> PlanView {
    if p.steps[p.next] is List {
        PlanView { next: p.steps.len() as int, ..p }
    } else {
        PlanView { next: p.next + 1, ..p }
    }
}

/// Whether `new` is `old` after taking in the outcome of `req`, with result `res`.
pub open spec fn absorbs(old: BlockadeHandler, new: BlockadeHandler, req: Request, out: Outcome, res: Result<(), BlockadeError>) -> bool {
    let unchanged = new.state == old.state && new.blockades == old.blockades;
    &&& new.host == old.host
    &&& new.config == old.config
    &&& new.state.wf()
    &&& match out {
        Outcome::Unreachable(m) => res == Err::<(), BlockadeError>(BlockadeError::HttpError(m)) && unchanged,
        Outcome::Replied { status, text, doc } => if !is_success(status) {
            res == Err::<(), BlockadeError>(BlockadeError::ServerError(text)) && unchanged
        } else {
            match req {
                Request::List => match doc {
                    Some(j) if list_decodable(j) => res is Ok && list_decodes(j, new.blockades@)
                        && new.state == old.state,
                    _ => res is Err && res->Err_0 is JsonError && unchanged,
                },
                Request::Get { name } => match doc {
                    Some(j) if state_decodable(j) => {
                        &&& res is Ok
                        &&& new.state@.contains_key(name@)
                        &&& state_decodes(j, new.state@[name@])
                        &&& new.state@ == old.state@.insert(name@, new.state@[name@])
                        &&& new.blockades == old.blockades
                    },
                    _ => res is Err && res->Err_0 is JsonError && unchanged,
                },
                Request::Delete { name } => res is Ok && new.state@ == old.state@.remove(name@)
                    && new.blockades == old.blockades,
                _ => res is Ok && unchanged,
            }
        },
    }
}

/// Whether `h` has just begun a plan in `mode`, from its first request.
pub open spec fn launched(h: BlockadeHandler, r: Action, mode: Mode) -> bool {
    &&& h.task is Some
    &&& h.task->0.next == 0
    &&& h.task->0.mode == mode
    &&& continues(h, r, h.task->0@)
}

/// The `i`th request of the plan in progress.
pub open spec fn step(h: BlockadeHandler, i: int) -> Request {
    h.task->0.steps@[i]
}

pub open spec fn names_view(v: Seq<String>) -> Seq<Seq<char>> {
    v.map_values(|s: String| s@)
}

pub open spec fn is_get(r: Request, name: Seq<char>) -> bool {
    r is Get && r->Get_name@ == name
}

pub open spec fn is_command(r: Request, name: Seq<char>, cmd: BlockadeCommand, containers: Seq<Seq<char>>) -> bool {
    match r {
        Request::Command { name: n, args } => n@ == name && args.command == cmd && names_view(args.container_names@)
            == containers,
        _ => false,
    }
}

pub open spec fn is_create(r: Request, name: Seq<char>) -> bool {
    r is Create && r->Create_name@ == name
}

pub open spec fn is_delete(r: Request, name: Seq<char>) -> bool {
    r is Delete && r->Delete_name@ == name
}

pub open spec fn is_restore(r: Request, name: Seq<char>) -> bool {
    r is Restore && r->Restore_name@ == name
}

pub open spec fn is_net_all(r: Request, name: Seq<char>, status: BlockadeNetStatus) -> bool {
    r is NetStateAll && r->NetStateAll_name@ == name && r->NetStateAll_status == status
}

pub open spec fn is_partition(r: Request, name: Seq<char>, groups: Seq<Vec<String>>) -> bool {
    r is Partition && r->Partition_name@ == name && r->Partition_args.partitions@ == groups
}

/// Whether handler state `h` leaves the shadow of `old` as it was.
pub open spec fn same_shadow(h: BlockadeHandler, old: BlockadeHandler) -> bool {
    &&& h.host == old.host
    &&& h.state == old.state
    &&& h.config == old.config
    &&& h.blockades == old.blockades
}

/// Whether `r` is the pick that draw `draw` makes among the containers of
/// blockade `name`: the container at that place, counted modulo their
/// number, in ascending order of names.
pub open spec fn picks(h: BlockadeHandler, name: Seq<char>, draw: int, r: Result<String, BlockadeError>) -> bool {
    if !h.state@.contains_key(name) {
        r matches Err(BlockadeError::OtherError(m)) && m@ == NOT_FOUND_MESSAGE@
    } else if h.state@[name].containers@.len() == 0 {
        r matches Err(BlockadeError::OtherError(m)) && m@ == NO_CONTAINERS_MESSAGE@
    } else {
        r matches Ok(c) && exists|names: Seq<String>|
            #![trigger sorted_names_of(h, name, names)]
            sorted_names_of(h, name, names) && names.len() > 0 && c@ == names[draw % (names.len() as int)]@
    }
}

/// Relies on rand::thread_rng and rand::Rng::gen_range: a value drawn
/// uniformly from 0..n, which is not empty.
#[verifier::external_body]
fn draw_below(n: usize) -> (r: usize)
    requires
        n > 0,
    ensures
        r < n,
{
    rand::thread_rng().gen_range(0..n)
}

fn conflict(e: &BlockadeError) -> (r: bool)
    ensures
        r == is_conflict(*e),
{
    match e {
        BlockadeError::ServerError(s) => same_text(s.as_str(), CONFLICT_MESSAGE),
        _ => false,
    }
}

/// Whether `h` has begun `cmd` on the container of `pick`, or, where the pick
/// failed, is idle and answers its error.
pub open spec fn one_started(h: BlockadeHandler, r: Action, name: Seq<char>, cmd: BlockadeCommand, pick: Result<String, BlockadeError>) -> bool {
    match pick {
        Err(e) => h.task is None && r == Action::Finish(Err(e)),
        Ok(c) => {
            &&& launched(h, r, Mode::Strict)
            &&& h.task->0.finale == Finale::Chosen(c)
            &&& h.task->0.steps@.len() == 2
            &&& is_command(step(h, 0), name, cmd, seq![c@])
            &&& is_get(step(h, 1), name)
        },
    }
}

/// The container names answered for a blockade are in ascending order and
/// depend only on which containers the shadow holds, not on the order in
/// which the service reported them.
pub proof fn law_container_names_order(h: BlockadeHandler, name: Seq<char>, a: Seq<String>, b: Seq<String>)
    requires
        sorted_names_of(h, name, a),
        sorted_names_of(h, name, b),
    ensures
        forall|i: int, j: int| 0 <= i < j < a.len() ==> lex_lt(a[i]@, a[j]@),
        names_view(a) == names_view(b),
{
    let va = names_view(a);
    let vb = names_view(b);
    if h.state@.contains_key(name) {
        assert forall|x: Seq<char>| va.contains(x) <==> vb.contains(x) by {
            if va.contains(x) {
                let i = choose|i: int| 0 <= i < va.len() && va[i] == x;
                assert(h.state@[name].containers@.contains_key(a[i]@));
                let j = choose|j: int| 0 <= j < b.len() && b[j]@ == x;
                assert(vb[j] == x);
            }
            if vb.contains(x) {
                let i = choose|i: int| 0 <= i < vb.len() && vb[i] == x;
                assert(h.state@[name].containers@.contains_key(b[i]@));
                let j = choose|j: int| 0 <= j < a.len() && a[j]@ == x;
                assert(va[j] == x);
            }
        }
        lemma_sorted_unique(va, vb);
    } else {
        assert(va =~= vb);
    }
}

/// A creation refused because the name is taken, in a plan begun with
/// restarts allowed, is followed by exactly: fetch and delete (the destroy),
/// create, fetch; the new plan allows no further recreation, so a second
/// refusal ends it with that error. Without restarts, the refusal ends the
/// plan and nothing is destroyed.
pub proof fn law_conflict_recreates_once(p: PlanView, e: BlockadeError, k: int)
    requires
        p.next == 0,
        p.steps.len() > 0,
        p.steps[0] is Create,
        is_conflict(e),
    ensures
        p.mode == Mode::Recreate ==> {
            let n = p.steps[0]->Create_name;
            &&& recreates(p, e)
            &&& recreate_plan(p).next == 0
            &&& recreate_plan(p).steps == seq![
                Request::Get { name: n },
                Request::Delete { name: n },
                Request::Create { name: n },
                Request::Get { name: n },
            ]
            &&& !recreates(PlanView { next: k, ..recreate_plan(p) }, e)
        },
        p.mode == Mode::Strict ==> !recreates(p, e),
{
}

/// A successful listing reply without a "blockades" member is no error, and
/// leaves the shadow with no blockade names.
pub proof fn law_empty_listing_reply(
    old: BlockadeHandler,
    new: BlockadeHandler,
    status: u16,
    text: String,
    f: Vec<(String, Json)>,
    res: Result<(), BlockadeError>,
)
    requires
        is_success(status),
        member(f@, "blockades"@) is None,
        absorbs(old, new, Request::List, Outcome::Replied { status, text, doc: Some(Json::Object(f)) }, res),
    ensures
        res is Ok,
        new.blockades@.len() == 0,
{
}

impl BlockadeHandler {
    /// The shadow keeps each name once, every recorded state is well formed,
    /// and every creation planned has a recorded configuration.
    pub open spec fn wf(&self) -> bool {
        &&& self.state.wf()
        &&& self.config.wf()
        &&& forall|k: Seq<char>| #![trigger self.state@[k]]
            self.state@.contains_key(k) ==> self.state@[k].containers.wf()
        &&& match self.task {
            Some(p) => p.next <= p.steps@.len() && self.plans_recorded(p@.steps),
            None => true,
        }
    }

    /// Every creation among `steps` has a recorded configuration.
    pub open spec fn plans_recorded(&self, steps: Seq<Request>) -> bool {
        forall|i: int| #![trigger steps[i]]
            0 <= i < steps.len() && steps[i] is Create ==> self.config@.contains_key(steps[i]->Create_name@)
    }

    /// A handler for the service at `host`, with an empty shadow.
    pub fn new(host: &str) -> (r: Self)
        ensures
            r.wf(),
            r.host@ == host@,
            r.blockades@.len() == 0,
            r.state@ == Map::<Seq<char>, BlockadeState>::empty(),
            r.config@ == Map::<Seq<char>, BlockadeConfig>::empty(),
            r.task is None,
    {
        BlockadeHandler {
            host: String::from_str(host),
            blockades: Vec::new(),
            state: Table::new(),
            config: Table::new(),
            task: None,
        }
    }

    fn url(&self, name: &str, part: &str) -> (r: String)
        ensures
            r@ == blockade_url(self.host@, name@, part@),
    {
        let mut u = self.host.clone();
        u.append("/blockade/");
        u.append(name);
        u.append(part);
        u
    }

    /// The container names of blockade `name` in the shadow, in ascending
    /// order; none where the shadow has no such blockade.
    pub fn sorted_container_names(&self, name: &str) -> (r: Vec<String>)
        requires
            self.wf(),
        ensures
            sorted_names_of(*self, name@, r@),
    {
        match self.state.get(name) {
            Some(st) => st.containers.sorted_keys(),
            None => Vec::new(),
        }
    }

    /// The call that carries `req`.
    pub fn issue(&self, req: &Request) -> (c: Call)
        requires
            self.wf(),
            req is Create ==> self.config@.contains_key(req->Create_name@),
        ensures
            call_for(*self, *req, c),
    {
        match req {
            Request::List => {
                let mut u = self.host.clone();
                u.append("/blockade");
                Call { method: Method::Get, url: u, body: None }
            },
            Request::Get { name } => Call { method: Method::Get, url: self.url(name.as_str(), ""), body: None },
            Request::Create { name } => {
                let body = match self.config.get(name.as_str()) {
                    Some(cfg) => encode_config(cfg),
                    None => Json::Null,
                };
                Call { method: Method::Post, url: self.url(name.as_str(), ""), body: Some(body) }
            },
            Request::Command { name, args } => Call {
                method: Method::Post,
                url: self.url(name.as_str(), "/action"),
                body: Some(encode_command_args(args)),
            },
            Request::NetState { name, args } => Call {
                method: Method::Post,
                url: self.url(name.as_str(), "/network_state"),
                body: Some(encode_net_args(args)),
            },
            Request::NetStateAll { name, status } => {
                let args = BlockadeNetArgs {
                    network_state: *status,
                    container_names: self.sorted_container_names(name.as_str()),
                };
                let body = encode_net_args(&args);
                assert(net_args_json(body, args));
                Call { method: Method::Post, url: self.url(name.as_str(), "/network_state"), body: Some(body) }
            },
            Request::Partition { name, args } => Call {
                method: Method::Post,
                url: self.url(name.as_str(), "/partitions"),
                body: Some(encode_partition_args(args)),
            },
            Request::Restore { name } => Call {
                method: Method::Delete,
                url: self.url(name.as_str(), "/partitions"),
                body: None,
            },
            Request::Delete { name } => Call { method: Method::Delete, url: self.url(name.as_str(), ""), body: None },
        }
    }

    fn conclude(&self, f: &Finale) -> (d: Done)
        requires
            self.wf(),
        ensures
            done_for(*self, *f, d),
    {
        match f {
            Finale::Unit => Done::Unit,
            Finale::Names(name) => Done::Names(self.sorted_container_names(name.as_str())),
            Finale::Chosen(c) => Done::Chosen(c.clone()),
        }
    }

    /// Sends the plan's next request, or finishes it.
    fn proceed(&mut self) -> (r: Action)
        requires
            old(self).wf(),
            old(self).task is Some,
        ensures
            final(self).wf(),
            final(self).host == old(self).host,
            final(self).state == old(self).state,
            final(self).config == old(self).config,
            final(self).blockades == old(self).blockades,
            continues(*final(self), r, old(self).task->0@),
    {
        let go = match &self.task {
            Some(p) => p.next < p.steps.len(),
            None => false,
        };
        if go {
            let c = match &self.task {
                Some(p) => {
                    proof {
                        let i = p.next as int;
                        assert(p@.steps[i] == p.steps@[i]);
                    }
                    self.issue(&p.steps[p.next])
                },
                None => Call { method: Method::Get, url: String::new(), body: None },
            };
            Action::Send(c)
        } else {
            let d = match self.task.take() {
                Some(p) => self.conclude(&p.finale),
                None => Done::Unit,
            };
            Action::Finish(Ok(d))
        }
    }

    fn launch(&mut self, steps: Vec<Request>, finale: Finale, mode: Mode) -> (r: Action)
        requires
            old(self).wf(),
            old(self).plans_recorded(steps@),
        ensures
            final(self).wf(),
            same_shadow(*final(self), *old(self)),
            continues(*final(self), r, PlanView { steps: steps@, next: 0, finale, mode }),
    {
        self.task = Some(Plan { steps, next: 0, finale, mode });
        self.proceed()
    }

    /// Hands the outcome of the call in flight to the operation in progress,
    /// and says what to do next.
    pub fn resume(&mut self, out: Outcome) -> (r: Action)
        requires
            old(self).wf(),
        ensures
            final(self).wf(),
            match old(self).task {
                Some(p) if p.next < p.steps@.len() => exists|res: Result<(), BlockadeError>|
                    #![trigger absorbs(*old(self), *final(self), p@.steps[p@.next], out, res)]
                    absorbs(*old(self), *final(self), p@.steps[p@.next], out, res) && match res {
                        Ok(_) => continues(*final(self), r, success_plan(p@, final(self).blockades@)),
                        Err(e) => if recreates(p@, e) {
                            continues(*final(self), r, recreate_plan(p@))
                        } else if p.mode == Mode::Warm {
                            continues(*final(self), r, skip_plan(p@))
                        } else {
                            final(self).task is None && r == Action::Finish(Err(e))
                        },
                    },
                _ => same_shadow(*final(self), *old(self)) && final(self).task is None
                    && r matches Action::Finish(Err(BlockadeError::OtherError(_))),
            },
    {
        let mut p = match self.task.take() {
            Some(p) => p,
            None => return Action::Finish(Err(BlockadeError::OtherError(String::from_str("no request in flight")))),
        };
        if p.next >= p.steps.len() {
            return Action::Finish(Err(BlockadeError::OtherError(String::from_str("no request in flight"))));
        }
        let ghost p0 = p@;
        let ghost before = *self;
        let res = self.absorb(&p.steps[p.next], out);
        proof {
            assert(p0.steps[p0.next] == p.steps@[p.next as int]);
            assert(absorbs(before, *self, p0.steps[p0.next], out, res));
        }
        let ghost absorbed = *self;
        let r = match res {
            Ok(()) => {
                let grows = (p.mode == Mode::Sweep || p.mode == Mode::Warm) && matches!(p.steps[p.next], Request::List);
                if grows {
                    let mut i: usize = 0;
                    while i < self.blockades.len()
                        invariant
                            i <= self.blockades@.len(),
                            p.next == p0.next,
                            p.mode == p0.mode,
                            p.finale == p0.finale,
                            p.steps@ == p0.steps + self.blockades@.subrange(0, i as int).map_values(|n: String| Request::Get { name: n }),
                        decreases self.blockades@.len() - i,
                    {
                        p.steps.push(Request::Get { name: self.blockades[i].clone() });
                        i = i + 1;
                        assert(self.blockades@.subrange(0, i as int).map_values(|n: String| Request::Get { name: n })
                            =~= self.blockades@.subrange(0, i - 1).map_values(|n: String| Request::Get { name: n }).push(Request::Get { name: self.blockades@[i - 1] }));
                    }
                    assert(self.blockades@.subrange(0, i as int) =~= self.blockades@);
                }
                p.next = p.next + 1;
                proof {
                    assert(p@ == success_plan(p0, self.blockades@));
                    assert forall|i: int| #![trigger p@.steps[i]] 0 <= i < p@.steps.len() && p@.steps[i] is Create
                        implies self.config@.contains_key(p@.steps[i]->Create_name@) by {
                        assert(i < p0.steps.len());
                        assert(p0.steps[i] == p@.steps[i]);
                    }
                }
                self.task = Some(p);
                self.proceed()
            },
            Err(e) => {
                let first_create = match &p.steps[0] {
                    Request::Create { name } => Some(name.clone()),
                    _ => None,
                };
                if p.mode == Mode::Recreate && p.next == 0 && conflict(&e) && first_create.is_some() {
                    let n = match first_create {
                        Some(n) => n,
                        None => String::new(),
                    };
                    proof {
                        assert(p0.steps[0] == p.steps@[0]);
                        assert(p0.steps[0] is Create);
                    }
                    p.steps = vec![
                        Request::Get { name: n.clone() },
                        Request::Delete { name: n.clone() },
                        Request::Create { name: n.clone() },
                        Request::Get { name: n },
                    ];
                    p.next = 0;
                    p.mode = Mode::Strict;
                    proof {
                        assert(p@.steps =~= recreate_plan(p0).steps);
                        assert(p@ == recreate_plan(p0));
                    }
                    self.task = Some(p);
                    self.proceed()
                } else if p.mode == Mode::Warm {
                    if matches!(p.steps[p.next], Request::List) {
                        p.next = p.steps.len();
                    } else {
                        p.next = p.next + 1;
                    }
                    assert(p@ == skip_plan(p0));
                    self.task = Some(p);
                    self.proceed()
                } else {
                    Action::Finish(Err(e))
                }
            },
        };
        proof {
            assert(same_shadow(*self, absorbed));
            assert(absorbs(*old(self), *self, p0.steps[p0.next], out, res));
        }
        r
    }


    fn command_plan(&mut self, name: &str, cmd: BlockadeCommand, container: &str, finale: Finale) -> (r: Action)
        requires
            old(self).wf(),
        ensures
            final(self).wf(),
            same_shadow(*final(self), *old(self)),
            launched(*final(self), r, Mode::Strict),
            final(self).task->0.finale == finale,
            final(self).task->0.steps@.len() == 2,
            is_command(step(*final(self), 0), name@, cmd, seq![container@]),
            is_get(step(*final(self), 1), name@),
    {
        let mut names: Vec<String> = Vec::new();
        names.push(String::from_str(container));
        let args = BlockadeCommandArgs { command: cmd, container_names: names };
        let steps = vec![
            Request::Command { name: String::from_str(name), args },
            Request::Get { name: String::from_str(name) },
        ];
        proof {
            assert(names_view(args.container_names@) =~= seq![container@]);
        }
        self.launch(steps, finale, Mode::Strict)
    }

    /// Creates blockade `name` from `config` (recorded in the shadow), then
    /// refreshes it. With `restart`, a refusal because the name is taken
    /// leads to destroying the blockade, creating it again and refreshing it;
    /// any other failure is answered as it is.
    pub fn start_blockade(&mut self, name: &str, config: BlockadeConfig, restart: bool) -> (r: Action)
        requires
            old(self).wf(),
        ensures
            final(self).wf(),
            final(self).host == old(self).host,
            final(self).state == old(self).state,
            final(self).blockades == old(self).blockades,
            final(self).config@ == old(self).config@.insert(name@, config),
            launched(*final(self), r, if restart { Mode::Recreate } else { Mode::Strict }),
            final(self).task->0.finale is Unit,
            final(self).task->0.steps@.len() == 2,
            is_create(step(*final(self), 0), name@),
            is_get(step(*final(self), 1), name@),
    {
        self.config.insert(String::from_str(name), config);
        let steps = vec![Request::Create { name: String::from_str(name) }, Request::Get { name: String::from_str(name) }];
        let mode = if restart {
            Mode::Recreate
        } else {
            Mode::Strict
        };
        proof {
            assert(self.config@.contains_key(name@));
        }
        self.launch(steps, Finale::Unit, mode)
    }

    /// Sets the partitions of a blockade, then refreshes it.
    pub fn make_partitions(&mut self, name: &str, partitions: Vec<Vec<String>>) -> (r: Action)
        requires
            old(self).wf(),
        ensures
            final(self).wf(),
            same_shadow(*final(self), *old(self)),
            launched(*final(self), r, Mode::Strict),
            final(self).task->0.finale is Unit,
            final(self).task->0.steps@.len() == 2,
            is_partition(step(*final(self), 0), name@, partitions@),
            is_get(step(*final(self), 1), name@),
    {
        let steps = vec![
            Request::Partition { name: String::from_str(name), args: BlockadePartitionArgs { partitions } },
            Request::Get { name: String::from_str(name) },
        ];
        self.launch(steps, Finale::Unit, Mode::Strict)
    }

    /// Puts all containers back in one partition and restores the link
    /// quality, then refreshes the blockade.
    pub fn heal_partitions(&mut self, name: &str) -> (r: Action)
        requires
            old(self).wf(),
        ensures
            final(self).wf(),
            same_shadow(*final(self), *old(self)),
            launched(*final(self), r, Mode::Strict),
            final(self).task->0.finale is Unit,
            final(self).task->0.steps@.len() == 2,
            is_restore(step(*final(self), 0), name@),
            is_get(step(*final(self), 1), name@),
    {
        let steps = vec![Request::Restore { name: String::from_str(name) }, Request::Get { name: String::from_str(name) }];
        self.launch(steps, Finale::Unit, Mode::Strict)
    }

    fn shape(&mut self, name: &str, status: BlockadeNetStatus) -> (r: Action)
        requires
            old(self).wf(),
        ensures
            final(self).wf(),
            same_shadow(*final(self), *old(self)),
            launched(*final(self), r, Mode::Strict),
            final(self).task->0.finale is Unit,
            final(self).task->0.steps@.len() == 3,
            is_get(step(*final(self), 0), name@),
            is_net_all(step(*final(self), 1), name@, status),
            is_get(step(*final(self), 2), name@),
    {
        let steps = vec![
            Request::Get { name: String::from_str(name) },
            Request::NetStateAll { name: String::from_str(name), status },
            Request::Get { name: String::from_str(name) },
        ];
        self.launch(steps, Finale::Unit, Mode::Strict)
    }

    /// Fetches the blockade, sets every container it has to the flaky profile
    /// in one request, then refreshes it.
    pub fn make_net_unreliable(&mut self, name: &str) -> (r: Action)
        requires
            old(self).wf(),
        ensures
            final(self).wf(),
            same_shadow(*final(self), *old(self)),
            launched(*final(self), r, Mode::Strict),
            final(self).task->0.finale is Unit,
            final(self).task->0.steps@.len() == 3,
            is_get(step(*final(self), 0), name@),
            is_net_all(step(*final(self), 1), name@, BlockadeNetStatus::Flaky),
            is_get(step(*final(self), 2), name@),
    {
        self.shape(name, BlockadeNetStatus::Flaky)
    }

    /// Fetches the blockade, sets every container it has to the fast profile
    /// in one request, then refreshes it.
    pub fn make_net_fast(&mut self, name: &str) -> (r: Action)
        requires
            old(self).wf(),
        ensures
            final(self).wf(),
            same_shadow(*final(self), *old(self)),
            launched(*final(self), r, Mode::Strict),
            final(self).task->0.finale is Unit,
            final(self).task->0.steps@.len() == 3,
            is_get(step(*final(self), 0), name@),
            is_net_all(step(*final(self), 1), name@, BlockadeNetStatus::Fast),
            is_get(step(*final(self), 2), name@),
    {
        self.shape(name, BlockadeNetStatus::Fast)
    }

    /// Fetches the blockade, then deletes it; the deletion drops it from the
    /// shadow.
    pub fn destroy_blockade(&mut self, name: &str) -> (r: Action)
        requires
            old(self).wf(),
        ensures
            final(self).wf(),
            same_shadow(*final(self), *old(self)),
            launched(*final(self), r, Mode::Strict),
            final(self).task->0.finale is Unit,
            final(self).task->0.steps@.len() == 2,
            is_get(step(*final(self), 0), name@),
            is_delete(step(*final(self), 1), name@),
    {
        let steps = vec![Request::Get { name: String::from_str(name) }, Request::Delete { name: String::from_str(name) }];
        self.launch(steps, Finale::Unit, Mode::Strict)
    }

    /// Fetches the blockade and answers its container names in ascending
    /// order.
    pub fn get_all_containers(&mut self, name: &str) -> (r: Action)
        requires
            old(self).wf(),
        ensures
            final(self).wf(),
            same_shadow(*final(self), *old(self)),
            launched(*final(self), r, Mode::Strict),
            final(self).task->0.finale matches Finale::Names(n) && n@ == name@,
            final(self).task->0.steps@.len() == 1,
            is_get(step(*final(self), 0), name@),
    {
        let steps = vec![Request::Get { name: String::from_str(name) }];
        self.launch(steps, Finale::Names(String::from_str(name)), Mode::Strict)
    }

    /// Lists the blockades, then refreshes each; the first failure ends it.
    pub fn fetch_state(&mut self) -> (r: Action)
        requires
            old(self).wf(),
        ensures
            final(self).wf(),
            same_shadow(*final(self), *old(self)),
            launched(*final(self), r, Mode::Sweep),
            final(self).task->0.finale is Unit,
            final(self).task->0.steps@ == seq![Request::List],
    {
        let steps = vec![Request::List];
        self.launch(steps, Finale::Unit, Mode::Sweep)
    }

    /// Like `fetch_state`, but failures are passed over: a failed listing
    /// ends it quietly, a failed fetch is skipped.
    pub fn warm_up(&mut self) -> (r: Action)
        requires
            old(self).wf(),
        ensures
            final(self).wf(),
            same_shadow(*final(self), *old(self)),
            launched(*final(self), r, Mode::Warm),
            final(self).task->0.finale is Unit,
            final(self).task->0.steps@ == seq![Request::List],
    {
        let steps = vec![Request::List];
        self.launch(steps, Finale::Unit, Mode::Warm)
    }

    /// Starts a container, then refreshes the blockade.
    pub fn start_container(&mut self, name: &str, container: &str) -> (r: Action)
        requires
            old(self).wf(),
        ensures
            final(self).wf(),
            same_shadow(*final(self), *old(self)),
            launched(*final(self), r, Mode::Strict),
            final(self).task->0.finale is Unit,
            final(self).task->0.steps@.len() == 2,
            is_command(step(*final(self), 0), name@, BlockadeCommand::Start, seq![container@]),
            is_get(step(*final(self), 1), name@),
    {
        self.command_plan(name, BlockadeCommand::Start, container, Finale::Unit)
    }

    /// Stops a container, then refreshes the blockade.
    pub fn stop_container(&mut self, name: &str, container: &str) -> (r: Action)
        requires
            old(self).wf(),
        ensures
            final(self).wf(),
            same_shadow(*final(self), *old(self)),
            launched(*final(self), r, Mode::Strict),
            final(self).task->0.finale is Unit,
            final(self).task->0.steps@.len() == 2,
            is_command(step(*final(self), 0), name@, BlockadeCommand::Stop, seq![container@]),
            is_get(step(*final(self), 1), name@),
    {
        self.command_plan(name, BlockadeCommand::Stop, container, Finale::Unit)
    }

    /// Restarts a container, then refreshes the blockade.
    pub fn restart_container(&mut self, name: &str, container: &str) -> (r: Action)
        requires
            old(self).wf(),
        ensures
            final(self).wf(),
            same_shadow(*final(self), *old(self)),
            launched(*final(self), r, Mode::Strict),
            final(self).task->0.finale is Unit,
            final(self).task->0.steps@.len() == 2,
            is_command(step(*final(self), 0), name@, BlockadeCommand::Restart, seq![container@]),
            is_get(step(*final(self), 1), name@),
    {
        self.command_plan(name, BlockadeCommand::Restart, container, Finale::Unit)
    }

    /// Kills a container, then refreshes the blockade.
    pub fn kill_container(&mut self, name: &str, container: &str) -> (r: Action)
        requires
            old(self).wf(),
        ensures
            final(self).wf(),
            same_shadow(*final(self), *old(self)),
            launched(*final(self), r, Mode::Strict),
            final(self).task->0.finale is Unit,
            final(self).task->0.steps@.len() == 2,
            is_command(step(*final(self), 0), name@, BlockadeCommand::Kill, seq![container@]),
            is_get(step(*final(self), 1), name@),
    {
        self.command_plan(name, BlockadeCommand::Kill, container, Finale::Unit)
    }

    /// Picks the container of blockade `name` that `draw` designates, from the
    /// shadow and without any call.
    pub fn choose_container(&self, name: &str, draw: usize) -> (r: Result<String, BlockadeError>)
        requires
            self.wf(),
        ensures
            picks(*self, name@, draw as int, r),
    {
        match self.state.get(name) {
            None => Err(BlockadeError::OtherError(String::from_str(NOT_FOUND_MESSAGE))),
            Some(st) => {
                let names = st.containers.sorted_keys();
                if names.len() == 0 {
                    Err(BlockadeError::OtherError(String::from_str(NO_CONTAINERS_MESSAGE)))
                } else {
                    let c = names[draw % names.len()].clone();
                    assert(sorted_names_of(*self, name@, names@));
                    Ok(c)
                }
            },
        }
    }

    /// Picks one container of blockade `name` at random, from the shadow and
    /// without any call.
    pub fn choose_random_container(&self, name: &str) -> (r: Result<String, BlockadeError>)
        requires
            self.wf(),
        ensures
            exists|draw: int| 0 <= draw && picks(*self, name@, draw, r),
    {
        let draw = self.random_draw(name);
        let r = self.choose_container(name, draw);
        assert(picks(*self, name@, draw as int, r));
        r
    }

    /// Kills the container that `draw` designates (see `choose_container`),
    /// then refreshes the blockade, and answers its name.
    pub fn kill_one_at(&mut self, name: &str, draw: usize) -> (r: Action)
        requires
            old(self).wf(),
        ensures
            final(self).wf(),
            same_shadow(*final(self), *old(self)),
            exists|pick: Result<String, BlockadeError>| #![trigger picks(*old(self), name@, draw as int, pick)]
                picks(*old(self), name@, draw as int, pick) && one_started(*final(self), r, name@, BlockadeCommand::Kill, pick),
    {
        self.one_at(name, draw, BlockadeCommand::Kill)
    }

    /// Restarts the container that `draw` designates (see `choose_container`),
    /// then refreshes the blockade, and answers its name.
    pub fn restart_one_at(&mut self, name: &str, draw: usize) -> (r: Action)
        requires
            old(self).wf(),
        ensures
            final(self).wf(),
            same_shadow(*final(self), *old(self)),
            exists|pick: Result<String, BlockadeError>| #![trigger picks(*old(self), name@, draw as int, pick)]
                picks(*old(self), name@, draw as int, pick) && one_started(*final(self), r, name@, BlockadeCommand::Restart, pick),
    {
        self.one_at(name, draw, BlockadeCommand::Restart)
    }

    fn one_at(&mut self, name: &str, draw: usize, cmd: BlockadeCommand) -> (r: Action)
        requires
            old(self).wf(),
        ensures
            final(self).wf(),
            same_shadow(*final(self), *old(self)),
            exists|pick: Result<String, BlockadeError>| #![trigger picks(*old(self), name@, draw as int, pick)]
                picks(*old(self), name@, draw as int, pick) && one_started(*final(self), r, name@, cmd, pick),
    {
        match self.choose_container(name, draw) {
            Err(e) => {
                self.task = None;
                Action::Finish(Err(e))
            },
            Ok(c) => {
                let c2 = c.clone();
                let r = self.command_plan(name, cmd, c.as_str(), Finale::Chosen(c2));
                assert(one_started(*self, r, name@, cmd, Ok::<String, BlockadeError>(c)));
                r
            },
        }
    }

    /// Kills one container picked at random, then refreshes the blockade, and
    /// answers the container's name.
    pub fn kill_one(&mut self, name: &str) -> (r: Action)
        requires
            old(self).wf(),
        ensures
            final(self).wf(),
            same_shadow(*final(self), *old(self)),
            exists|draw: int, pick: Result<String, BlockadeError>| #![trigger picks(*old(self), name@, draw, pick)]
                0 <= draw && picks(*old(self), name@, draw, pick) && one_started(*final(self), r, name@, BlockadeCommand::Kill, pick),
    {
        let draw = self.random_draw(name);
        let r = self.one_at(name, draw, BlockadeCommand::Kill);
        assert(0 <= draw as int);
        r
    }

    /// Restarts one container picked at random, then refreshes the blockade,
    /// and answers the container's name.
    pub fn restart_one(&mut self, name: &str) -> (r: Action)
        requires
            old(self).wf(),
        ensures
            final(self).wf(),
            same_shadow(*final(self), *old(self)),
            exists|draw: int, pick: Result<String, BlockadeError>| #![trigger picks(*old(self), name@, draw, pick)]
                0 <= draw && picks(*old(self), name@, draw, pick) && one_started(*final(self), r, name@, BlockadeCommand::Restart, pick),
    {
        let draw = self.random_draw(name);
        let r = self.one_at(name, draw, BlockadeCommand::Restart);
        assert(0 <= draw as int);
        r
    }

    /// A draw below the number of containers of blockade `name`, where it
    /// has any.
    fn random_draw(&self, name: &str) -> (r: usize)
        requires
            self.wf(),
    {
        let n = match self.state.get(name) {
            Some(st) => st.containers.len(),
            None => 0,
        };
        if n > 0 {
            draw_below(n)
        } else {
            0
        }
    }

    /// Takes in the outcome of `req`: classifies it, and updates the shadow
    /// with what a successful listing, fetch or deletion reports.
    pub fn absorb(&mut self, req: &Request, out: Outcome) -> (r: Result<(), BlockadeError>)
        requires
            old(self).wf(),
        ensures
            final(self).wf(),
            final(self).task == old(self).task,
            absorbs(*old(self), *final(self), *req, out, r),
    {
        match out {
            Outcome::Unreachable(m) => Err(BlockadeError::HttpError(m)),
            Outcome::Replied { status, text, doc } => {
                if !(200 <= status && status <= 299) {
                    return Err(BlockadeError::ServerError(text));
                }
                match req {
                    Request::List => match &doc {
                        Some(j) => match decode_list(j) {
                            Ok(names) => {
                                self.blockades = names;
                                Ok(())
                            },
                            Err(e) => Err(e),
                        },
                        None => Err(BlockadeError::JsonError(String::from_str("reply is not JSON"))),
                    },
                    Request::Get { name } => match &doc {
                        Some(j) => match decode_state(j) {
                            Ok(st) => {
                                self.state.insert(name.clone(), st);
                                Ok(())
                            },
                            Err(e) => Err(e),
                        },
                        None => Err(BlockadeError::JsonError(String::from_str("reply is not JSON"))),
                    },
                    Request::Delete { name } => {
                        self.state.remove(name.as_str());
                        Ok(())
                    },
                    _ => Ok(()),
                }
            },
        }
    }
}

} // verus!

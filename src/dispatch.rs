//! The command registry and the dispatcher that routes invocations through it.
use vstd::prelude::*;
use crate::args::{
    ArgError, ArgErrorModel, ArgModel, ArgValue, ParamKind, ParamSpec, RawArgument, arg_error_model,
    arg_model, normalize, normalize_spec,
};
use crate::commands::{
    CoinFlips, DiceRoll, DiskSpace, DiskStatus, HealthStatus, Mood, UptimeReport, ANSWER_COUNT,
    FACT_COUNT, JOKE_COUNT, disk_spec, disk_status, flip_coins, health_spec, health_status, heads_in,
    mood_of, mood_spec, random_below, roll_dice, sum_rolls, uptime_report,
};
use crate::ledger::{UsageLedger, EntriesView, count_in, entries_view, incremented, lemma_increment_counts, names_unique};
use crate::stats::{RANKED_COMMANDS, elapsed_seconds, top_n_spec};
use crate::ledger::total_of;
use crate::text::{bytes_text, div_round_even, format_bytes, format_uptime, uptime_text};
use crate::stats::{Stats, compute_stats};

verus! {

/// What a command does when invoked.
pub enum Handler {
    ServerInfo,
    Health,
    RandomFact,
    SystemJoke,
    Roll,
    CoinFlip,
    Magic8Ball,
    Uptime,
    Stats,
}

/// A registered command: its unique name, the parameters it takes and its handler.
pub struct CommandDescriptor {
    pub name: String,
    pub schema: Vec<ParamSpec>,
    pub handler: Handler,
}

/// The names of a list of descriptors.
pub open spec fn names_of(c: Seq<CommandDescriptor>) -> Seq<Seq<char>> {
    Seq::new(c.len(), |i: int| c[i].name@)
}

/// No name occurs twice.
pub open spec fn distinct(n: Seq<Seq<char>>) -> bool {
    forall|i: int, j: int| 0 <= i < j < n.len() ==> n[i] != n[j]
}

/// The fixed set of commands, keyed by unique name.
pub struct Registry {
    commands: Vec<CommandDescriptor>,
}

impl Registry {
    /// The registered descriptors, in registration order.
    pub closed spec fn descriptors(&self) -> Seq<CommandDescriptor> {
        self.commands@
    }

    pub open spec fn wf(&self) -> bool {
        distinct(names_of(self.descriptors()))
    }

    /// A registry of `commands`, or the first name that repeats an earlier one.
    pub fn new(commands: Vec<CommandDescriptor>) -> (r: Result<Registry, String>)
        ensures
            r is Ok <==> distinct(names_of(commands@)),
            r matches Ok(reg) ==> reg.wf() && reg.descriptors() == commands@,
            r matches Err(n) ==> exists|i: int, j: int|
                0 <= i < j < commands@.len() && commands@[i].name@ == n@ && commands@[j].name@ == n@,
    {
        let mut j: usize = 0;
        while j < commands.len()
            invariant
                j <= commands@.len(),
                distinct(names_of(commands@.take(j as int))),
            decreases commands.len() - j,
        {
            let mut i: usize = 0;
            while i < j
                invariant
                    i <= j < commands@.len(),
                    forall|k: int| 0 <= k < i ==> commands@[k].name@ != commands@[j as int].name@,
                decreases j - i,
            {
                if commands[i].name == commands[j].name {
                    assert(names_of(commands@)[i as int] == names_of(commands@)[j as int]);
                    let n = commands[j].name.clone();
                    return Err(n);
                }
                i = i + 1;
            }
            proof {
                let prev = names_of(commands@.take(j as int));
                let next = names_of(commands@.take(j + 1));
                assert forall|a: int, b: int| 0 <= a < b < next.len() implies
                    #[trigger] next[a] != #[trigger] next[b] by {
                    if b < j {
                        assert(prev[a] != prev[b]);
                    }
                }
            }
            j = j + 1;
        }
        assert(commands@.take(j as int) =~= commands@);
        Ok(Registry { commands })
    }

    /// Where `name` is registered, its position.
    pub fn find(&self, name: &String) -> (r: Option<usize>)
        requires
            self.wf(),
        ensures
            r is None <==> !names_of(self.descriptors()).contains(name@),
            r matches Some(i) ==> i < self.descriptors().len() && self.descriptors()[i as int].name@ == name@,
    {
        let mut i: usize = 0;
        while i < self.commands.len()
            invariant
                i <= self.commands@.len(),
                forall|k: int| 0 <= k < i ==> self.commands@[k].name@ != name@,
            decreases self.commands.len() - i,
        {
            if self.commands[i].name == *name {
                assert(names_of(self.descriptors())[i as int] == name@);
                return Some(i);
            }
            i = i + 1;
        }
        assert forall|k: int| 0 <= k < names_of(self.descriptors()).len() implies
            names_of(self.descriptors())[k] != name@ by {}
        None
    }
}


/// Memory of the host, in bytes.
#[derive(Clone, Copy, Debug)]
pub struct MemoryInfo {
    pub total: u64,
    pub available: u64,
    pub used: u64,
}

/// Facts about the host, gathered before an invocation by whoever runs the dispatcher.
pub struct HostMetrics {
    pub memory: MemoryInfo,
    pub disks: Vec<DiskSpace>,
    pub os_version: Option<String>,
    pub kernel_version: Option<String>,
    pub host_uptime: u64,
    pub public_ip: Option<String>,
    pub local_ip: Option<String>,
}

/// What a handler may read besides its arguments.
pub struct InvocationContext {
    /// When the process started, in seconds since the epoch.
    pub process_start_time: i64,
    /// How long the platform took to acknowledge the invocation.
    pub response_ms: u64,
    /// Host facts, where they could be gathered.
    pub metrics: Option<HostMetrics>,
}

/// One inbound command call.
pub struct InvocationRequest {
    pub command_name: String,
    pub raw_arguments: Vec<RawArgument>,
    /// When the call was made, in seconds since the epoch.
    pub invocation_time: i64,
}

/// The server description, with `"Unknown"` where a fact was unavailable.
pub struct ServerReport {
    pub memory_total: String,
    pub memory_used: String,
    pub memory_available: String,
    /// Share of memory in use, in tenths of a percent; none where the total is zero.
    pub memory_usage_tenths: Option<u128>,
    pub os_version: String,
    pub kernel_version: String,
    pub uptime: String,
    pub public_ip: String,
    pub local_ip: String,
}

/// What a handler produced.
pub enum Response {
    ServerInfo(ServerReport),
    Health { status: HealthStatus, disks: DiskStatus, response_ms: u64, memory_usage_tenths: Option<u128> },
    Fact { index: u32 },
    Joke { index: u32 },
    Roll(DiceRoll),
    CoinFlip(CoinFlips),
    Magic8Ball { question: String, answer: u32, mood: Mood },
    Uptime(UptimeReport),
    Stats(Stats),
}

/// Why an invocation did not complete.
pub enum DispatchError {
    /// No command of that name is registered.
    UnknownCommand,
    /// A parameter without a default was not supplied.
    MissingRequiredArgument(String),
    /// A parameter was supplied with a value of the wrong kind.
    InvalidArgument(String),
    /// The handler's reply could not be delivered; the cause is for operators.
    HandlerFailure { command: String, cause: String },
}

impl DispatchError {
    /// The message shown to the person who invoked the command; it never
    /// carries a handler's internal cause.
    pub fn user_message(&self) -> (r: String)
        ensures
            self is UnknownCommand ==> r@ == "Command not found."@,
            self matches DispatchError::MissingRequiredArgument(n) ==> r@ == "Missing required argument: "@ + n@,
            self matches DispatchError::InvalidArgument(n) ==> r@ == "Invalid value for argument: "@ + n@,
            self is HandlerFailure ==> r@ == "An error occurred while running the command."@,
    {
        match self {
            DispatchError::UnknownCommand => String::from_str("Command not found."),
            DispatchError::MissingRequiredArgument(n) => String::from_str("Missing required argument: ").concat(n.as_str()),
            DispatchError::InvalidArgument(n) => String::from_str("Invalid value for argument: ").concat(n.as_str()),
            DispatchError::HandlerFailure { .. } => String::from_str("An error occurred while running the command."),
        }
    }
}

/// `r` is the dispatch error for the argument error `e`.
pub open spec fn is_arg_error(r: DispatchError, e: ArgErrorModel) -> bool {
    match e {
        ArgErrorModel::Missing(n) => r matches DispatchError::MissingRequiredArgument(m) && m@ == n,
        ArgErrorModel::WrongKind(n) => r matches DispatchError::InvalidArgument(m) && m@ == n,
    }
}

/// The number at position `i` of the arguments, `fallback` where there is none.
pub open spec fn number_arg(args: Seq<ArgModel>, i: int, fallback: u32) -> u32 {
    if 0 <= i < args.len() && args[i] is Number { args[i]->Number_0 } else { fallback }
}

/// The text at position `i` of the arguments, empty where there is none.
pub open spec fn text_arg(args: Seq<ArgModel>, i: int) -> Seq<char> {
    if 0 <= i < args.len() && args[i] is Text { args[i]->Text_0 } else { Seq::empty() }
}

/// `o`'s text, or `"Unknown"`.
pub open spec fn or_unknown(o: Option<String>) -> Seq<char> {
    match o {
        Some(t) => t@,
        None => "Unknown"@,
    }
}

/// Share of memory in use, in tenths of a percent rounded to nearest (ties to
/// even); none where the total is zero.
pub open spec fn usage_tenths_spec(used: u64, total: u64) -> Option<u128> {
    if total > 0 {
        Some(div_round_even(used as nat * 1000, total as nat) as u128)
    } else {
        None
    }
}

/// Share of memory in use, in tenths of a percent.
pub fn usage_tenths(used: u64, total: u64) -> (r: Option<u128>)
    ensures
        r == usage_tenths_spec(used, total),
{
    if total > 0 {
        let a: u128 = used as u128 * 1000;
        let b: u128 = total as u128;
        let q: u128 = a / b;
        let rem: u128 = a % b;
        Some(if 2 * rem > b || (2 * rem == b && q % 2 == 1) { q + 1 } else { q })
    } else {
        None
    }
}

/// The server report for the given host facts.
pub open spec fn server_report_spec(m: HostMetrics, r: ServerReport) -> bool {
    &&& r.memory_total@ == bytes_text(m.memory.total as nat)
    &&& r.memory_used@ == bytes_text(m.memory.used as nat)
    &&& r.memory_available@ == bytes_text(m.memory.available as nat)
    &&& r.memory_usage_tenths == usage_tenths_spec(m.memory.used, m.memory.total)
    &&& r.os_version@ == or_unknown(m.os_version)
    &&& r.kernel_version@ == or_unknown(m.kernel_version)
    &&& r.uptime@ == uptime_text(m.host_uptime as nat)
    &&& r.public_ip@ == or_unknown(m.public_ip)
    &&& r.local_ip@ == or_unknown(m.local_ip)
}

/// What `h` produces from normalized `args`, invoked at `now` in `ctx`, with
/// `ledger` holding the counts before this invocation. Random picks are only
/// bounded; everything else is exact.
pub open spec fn handled(h: Handler, args: Seq<ArgModel>, now: i64, ctx: InvocationContext, ledger: EntriesView, r: Response) -> bool {
    match h {
        Handler::ServerInfo => r matches Response::ServerInfo(rep) && match ctx.metrics {
            Some(m) => server_report_spec(m, rep),
            None => rep.memory_total@ == "Unknown"@ && rep.memory_used@ == "Unknown"@
                && rep.memory_available@ == "Unknown"@ && rep.memory_usage_tenths is None
                && rep.os_version@ == "Unknown"@ && rep.kernel_version@ == "Unknown"@
                && rep.uptime@ == "Unknown"@ && rep.public_ip@ == "Unknown"@ && rep.local_ip@ == "Unknown"@,
        },
        Handler::Health => r matches Response::Health { status, disks, response_ms, memory_usage_tenths }
            && response_ms == ctx.response_ms
            && match ctx.metrics {
                Some(m) => memory_usage_tenths == usage_tenths_spec(m.memory.used, m.memory.total)
                    && status == health_spec(ctx.response_ms as nat, m.memory.used as nat, m.memory.total as nat)
                    && (m.disks@.len() <= u32::MAX ==> disks == disk_spec(m.disks@))
                    && (m.disks@.len() > u32::MAX ==> disks == DiskStatus::Unknown),
                None => status == HealthStatus::Unhealthy && disks == DiskStatus::Unknown
                    && memory_usage_tenths is None,
            },
        Handler::RandomFact => r matches Response::Fact { index } && index < FACT_COUNT,
        Handler::SystemJoke => r matches Response::Joke { index } && index < JOKE_COUNT,
        Handler::Roll => r matches Response::Roll(d)
            && d.sides == crate::args::clamp_spec(number_arg(args, 0, 6), Some((2u32, 1000u32)))
            && d.count == crate::args::clamp_spec(number_arg(args, 1, 1), Some((1u32, 10u32)))
            && d.results@.len() == d.count
            && (forall|i: int| 0 <= i < d.results@.len() ==> 1 <= #[trigger] d.results@[i] <= d.sides)
            && d.total as nat == sum_rolls(d.results@),
        Handler::CoinFlip => r matches Response::CoinFlip(c)
            && c.flips@.len() == crate::args::clamp_spec(number_arg(args, 0, 1), Some((1u32, 50u32)))
            && c.heads as nat == heads_in(c.flips@)
            && c.heads + c.tails == c.flips@.len(),
        Handler::Magic8Ball => r matches Response::Magic8Ball { question, answer, mood }
            && question@ == text_arg(args, 0) && answer < ANSWER_COUNT && mood == mood_spec(answer),
        Handler::Uptime => r matches Response::Uptime(u)
            && u.seconds as nat == elapsed_seconds(ctx.process_start_time as int, now as int)
            && u.text@ == uptime_text(u.seconds as nat)
            && (u.started_at matches Some(t) ==> t@ == crate::commands::utc_text(ctx.process_start_time as int))
            && (crate::commands::MIN_RENDERED_TIME <= ctx.process_start_time <= crate::commands::MAX_RENDERED_TIME
                ==> u.started_at is Some),
        Handler::Stats => r matches Response::Stats(st)
            && st.total as nat == total_of(ledger)
            && st.uptime_seconds as nat == elapsed_seconds(ctx.process_start_time as int, now as int)
            && st.uptime_hours as nat == elapsed_seconds(ctx.process_start_time as int, now as int) / 3600
            && entries_view(st.ranked@) == top_n_spec(RANKED_COMMANDS as nat, ledger),
    }
}

fn number_at(args: &Vec<ArgValue>, i: usize, fallback: u32) -> (r: u32)
    ensures
        r == number_arg(args@.map_values(|v: ArgValue| arg_model(v)), i as int, fallback),
{
    if i < args.len() {
        match &args[i] {
            ArgValue::Number(n) => *n,
            ArgValue::Text(_) => fallback,
        }
    } else {
        fallback
    }
}

fn text_at(args: &Vec<ArgValue>, i: usize) -> (r: String)
    ensures
        r@ == text_arg(args@.map_values(|v: ArgValue| arg_model(v)), i as int),
{
    if i < args.len() {
        match &args[i] {
            ArgValue::Text(t) => t.clone(),
            ArgValue::Number(_) => String::new(),
        }
    } else {
        String::new()
    }
}

fn text_or_unknown(o: &Option<String>) -> (r: String)
    ensures
        r@ == or_unknown(*o),
{
    match o {
        Some(t) => t.clone(),
        None => String::from_str("Unknown"),
    }
}

fn unknown() -> (r: String)
    ensures
        r@ == "Unknown"@,
{
    String::from_str("Unknown")
}

/// Describes the host from the gathered facts.
pub fn server_report(m: &HostMetrics) -> (r: ServerReport)
    ensures
        server_report_spec(*m, r),
{
    let usage = usage_tenths(m.memory.used, m.memory.total);
    ServerReport {
        memory_total: format_bytes(m.memory.total),
        memory_used: format_bytes(m.memory.used),
        memory_available: format_bytes(m.memory.available),
        memory_usage_tenths: usage,
        os_version: text_or_unknown(&m.os_version),
        kernel_version: text_or_unknown(&m.kernel_version),
        uptime: format_uptime(m.host_uptime),
        public_ip: text_or_unknown(&m.public_ip),
        local_ip: text_or_unknown(&m.local_ip),
    }
}

/// Runs handler `h` on normalized arguments.
pub fn run_handler(h: &Handler, args: &Vec<ArgValue>, now: i64, ctx: &InvocationContext, ledger: &UsageLedger) -> (r: Response)
    requires
        ledger.wf(),
    ensures
        handled(*h, args@.map_values(|v: ArgValue| arg_model(v)), now, *ctx, ledger@, r),
{
    match h {
        Handler::ServerInfo => match &ctx.metrics {
            Some(m) => Response::ServerInfo(server_report(m)),
            None => Response::ServerInfo(ServerReport {
                memory_total: unknown(),
                memory_used: unknown(),
                memory_available: unknown(),
                memory_usage_tenths: None,
                os_version: unknown(),
                kernel_version: unknown(),
                uptime: unknown(),
                public_ip: unknown(),
                local_ip: unknown(),
            }),
        },
        Handler::Health => match &ctx.metrics {
            Some(m) => {
                let status = health_status(ctx.response_ms, m.memory.used, m.memory.total);
                let disks = if m.disks.len() <= 0xffff_ffff { disk_status(&m.disks) } else { DiskStatus::Unknown };
                Response::Health {
                    status,
                    disks,
                    response_ms: ctx.response_ms,
                    memory_usage_tenths: usage_tenths(m.memory.used, m.memory.total),
                }
            },
            None => Response::Health {
                status: HealthStatus::Unhealthy,
                disks: DiskStatus::Unknown,
                response_ms: ctx.response_ms,
                memory_usage_tenths: None,
            },
        },
        Handler::RandomFact => Response::Fact { index: random_below(FACT_COUNT) },
        Handler::SystemJoke => Response::Joke { index: random_below(JOKE_COUNT) },
        Handler::Roll => {
            let sides = crate::args::clamp(number_at(args, 0, 6), Some((2, 1000)));
            let count = crate::args::clamp(number_at(args, 1, 1), Some((1, 10)));
            Response::Roll(roll_dice(sides, count))
        },
        Handler::CoinFlip => {
            let count = crate::args::clamp(number_at(args, 0, 1), Some((1, 50)));
            Response::CoinFlip(flip_coins(count))
        },
        Handler::Magic8Ball => {
            let question = text_at(args, 0);
            let answer = random_below(ANSWER_COUNT);
            Response::Magic8Ball { question, answer, mood: mood_of(answer) }
        },
        Handler::Uptime => Response::Uptime(uptime_report(ctx.process_start_time, now)),
        Handler::Stats => Response::Stats(compute_stats(ledger, ctx.process_start_time, now)),
    }
}


/// A whole-number parameter with a default, clamped into `[lo, hi]`.
fn bounded_number(name: &str, default: u32, lo: u32, hi: u32) -> (r: ParamSpec)
    ensures
        r.name@ == name@,
        r.kind == (ParamKind::Number { default: Some(default), range: Some((lo, hi)) }),
{
    ParamSpec { name: String::from_str(name), kind: ParamKind::Number { default: Some(default), range: Some((lo, hi)) } }
}

fn command(name: &str, schema: Vec<ParamSpec>, handler: Handler) -> (r: CommandDescriptor)
    ensures
        r.name@ == name@,
        r.schema == schema,
        r.handler == handler,
{
    CommandDescriptor { name: String::from_str(name), schema, handler }
}

/// The bot's nine commands, in this order, with their handlers and schemas.
pub open spec fn is_standard(d: Seq<CommandDescriptor>) -> bool {
    &&& d.len() == 9
    &&& d[0].name@ == "server_info"@ && d[0].handler == Handler::ServerInfo && d[0].schema@.len() == 0
    &&& d[1].name@ == "health"@ && d[1].handler == Handler::Health && d[1].schema@.len() == 0
    &&& d[2].name@ == "random_fact"@ && d[2].handler == Handler::RandomFact && d[2].schema@.len() == 0
    &&& d[3].name@ == "system_joke"@ && d[3].handler == Handler::SystemJoke && d[3].schema@.len() == 0
    &&& d[4].name@ == "roll"@ && d[4].handler == Handler::Roll && d[4].schema@.len() == 2
    &&& d[4].schema@[0].name@ == "sides"@
    &&& d[4].schema@[0].kind == (ParamKind::Number { default: Some(6u32), range: Some((2u32, 1000u32)) })
    &&& d[4].schema@[1].name@ == "count"@
    &&& d[4].schema@[1].kind == (ParamKind::Number { default: Some(1u32), range: Some((1u32, 10u32)) })
    &&& d[5].name@ == "coinflip"@ && d[5].handler == Handler::CoinFlip && d[5].schema@.len() == 1
    &&& d[5].schema@[0].name@ == "count"@
    &&& d[5].schema@[0].kind == (ParamKind::Number { default: Some(1u32), range: Some((1u32, 50u32)) })
    &&& d[6].name@ == "magic8ball"@ && d[6].handler == Handler::Magic8Ball && d[6].schema@.len() == 1
    &&& d[6].schema@[0].name@ == "question"@
    &&& d[6].schema@[0].kind matches ParamKind::Text { default_text: None }
    &&& d[7].name@ == "uptime"@ && d[7].handler == Handler::Uptime && d[7].schema@.len() == 0
    &&& d[8].name@ == "stats"@ && d[8].handler == Handler::Stats && d[8].schema@.len() == 0
}

/// The bot's commands: `server_info`, `health`, `random_fact`, `system_joke`,
/// `roll` (sides 2 to 1000, default 6; count 1 to 10, default 1), `coinflip`
/// (count 1 to 50, default 1), `magic8ball` (a required question), `uptime`
/// and `stats`.
pub fn standard_commands() -> (r: Vec<CommandDescriptor>)
    ensures
        is_standard(r@),
{
    let mut v: Vec<CommandDescriptor> = Vec::new();
    v.push(command("server_info", Vec::new(), Handler::ServerInfo));
    v.push(command("health", Vec::new(), Handler::Health));
    v.push(command("random_fact", Vec::new(), Handler::RandomFact));
    v.push(command("system_joke", Vec::new(), Handler::SystemJoke));
    let mut roll: Vec<ParamSpec> = Vec::new();
    roll.push(bounded_number("sides", 6, 2, 1000));
    roll.push(bounded_number("count", 1, 1, 10));
    v.push(command("roll", roll, Handler::Roll));
    let mut coin: Vec<ParamSpec> = Vec::new();
    coin.push(bounded_number("count", 1, 1, 50));
    v.push(command("coinflip", coin, Handler::CoinFlip));
    let mut ask: Vec<ParamSpec> = Vec::new();
    ask.push(ParamSpec { name: String::from_str("question"), kind: ParamKind::Text { default_text: None } });
    v.push(command("magic8ball", ask, Handler::Magic8Ball));
    v.push(command("uptime", Vec::new(), Handler::Uptime));
    v.push(command("stats", Vec::new(), Handler::Stats));
    v
}

/// The argument error of a failed normalization, as a dispatch error.
fn from_arg_error(e: ArgError) -> (r: DispatchError)
    ensures
        is_arg_error(r, arg_error_model(e)),
{
    match e {
        ArgError::Missing(n) => DispatchError::MissingRequiredArgument(n),
        ArgError::WrongKind(n) => DispatchError::InvalidArgument(n),
    }
}

impl Registry {
    /// The registry of `standard_commands`, whose names are distinct.
    pub fn standard() -> (r: Registry)
        ensures
            r.wf(),
            is_standard(r.descriptors()),
    {
        let cmds = standard_commands();
        proof {
            reveal_strlit("server_info");
            reveal_strlit("health");
            reveal_strlit("random_fact");
            reveal_strlit("system_joke");
            reveal_strlit("roll");
            reveal_strlit("coinflip");
            reveal_strlit("magic8ball");
            reveal_strlit("uptime");
            reveal_strlit("stats");
            let n = names_of(cmds@);
            assert(n =~= seq!["server_info"@, "health"@, "random_fact"@, "system_joke"@,
                "roll"@, "coinflip"@, "magic8ball"@, "uptime"@, "stats"@]);
            assert forall|i: int, j: int| 0 <= i < j < n.len() implies #[trigger] n[i] != #[trigger] n[j] by {
                assert(n[i][0] != n[j][0] || n[i].len() != n[j].len() || n[i][1] != n[j][1]);
            }
        }
        match Registry::new(cmds) {
            Ok(r) => r,
            Err(_) => {
                assert(false);
                Registry { commands: Vec::new() }
            },
        }
    }

    /// What `prepare` owes for `request`: an unknown name fails, a failed
    /// normalization fails with its error, and otherwise the handler's response.
    pub open spec fn prepared(&self, request: InvocationRequest, ctx: InvocationContext, ledger: EntriesView, r: Result<Response, DispatchError>) -> bool {
        if !names_of(self.descriptors()).contains(request.command_name@) {
            r matches Err(DispatchError::UnknownCommand)
        } else {
            let d = self.descriptors()[names_of(self.descriptors()).index_of(request.command_name@)];
            match normalize_spec(d.schema@, request.raw_arguments@) {
                Err(e) => r matches Err(x) && is_arg_error(x, e),
                Ok(args) => r matches Ok(resp) && handled(d.handler, args, request.invocation_time, ctx, ledger, resp),
            }
        }
    }

    /// Looks up the command, normalizes its arguments and runs its handler,
    /// without recording anything.
    pub fn prepare(&self, request: &InvocationRequest, ctx: &InvocationContext, ledger: &UsageLedger) -> (r: Result<Response, DispatchError>)
        requires
            self.wf(),
            ledger.wf(),
        ensures
            self.prepared(*request, *ctx, ledger@, r),
    {
        match self.find(&request.command_name) {
            None => Err(DispatchError::UnknownCommand),
            Some(i) => {
                proof {
                    let n = names_of(self.descriptors());
                    assert(n[i as int] == request.command_name@);
                    let k = n.index_of(request.command_name@);
                    if k != i as int {
                        if k < i { assert(n[k] != n[i as int]); } else { assert(n[i as int] != n[k]); }
                    }
                }
                let d = &self.commands[i];
                match normalize(&d.schema, &request.raw_arguments) {
                    Err(e) => Err(from_arg_error(e)),
                    Ok(args) => Ok(run_handler(&d.handler, &args, request.invocation_time, ctx, ledger)),
                }
            },
        }
    }

    /// Handles one invocation: the response of `prepare`, and on success one
    /// more use of the command in the ledger. A failed invocation leaves the
    /// ledger as it was.
    pub fn dispatch(&self, request: &InvocationRequest, ctx: &InvocationContext, ledger: &mut UsageLedger) -> (r: Result<Response, DispatchError>)
        requires
            self.wf(),
            old(ledger).wf(),
        ensures
            self.prepared(*request, *ctx, old(ledger)@, r),
            final(ledger).wf(),
            r is Ok ==> final(ledger)@ == incremented(old(ledger)@, request.command_name@),
            r is Err ==> final(ledger)@ == old(ledger)@,
            r is Ok && count_in(old(ledger)@, request.command_name@) < u64::MAX
                ==> count_in(final(ledger)@, request.command_name@) == count_in(old(ledger)@, request.command_name@) + 1,
            forall|other: Seq<char>| other != request.command_name@
                ==> count_in(#[trigger] final(ledger)@, other) == count_in(old(ledger)@, other),
    {
        let r = self.prepare(request, ctx, ledger);
        let ghost before = ledger@;
        if r.is_ok() {
            ledger.increment(&request.command_name);
        }
        proof {
            lemma_increment_counts(before, request.command_name@, request.command_name@);
            assert forall|other: Seq<char>| other != request.command_name@
                implies count_in(ledger@, other) == count_in(before, other) by {
                lemma_increment_counts(before, request.command_name@, other);
            }
        }
        r
    }
}

/// Across one dispatch of `command`, with the ledger going from `before` to
/// `after` as `dispatch` states: a successful invocation adds exactly one to the
/// command's count (below the largest `u64`), a failed one changes no count.
pub proof fn lemma_dispatch_counts(before: EntriesView, after: EntriesView, command: Seq<char>, other: Seq<char>, succeeded: bool)
    requires
        names_unique(before),
        succeeded ==> after == incremented(before, command),
        !succeeded ==> after == before,
    ensures
        succeeded && count_in(before, command) < u64::MAX ==> count_in(after, command) == count_in(before, command) + 1,
        succeeded && other != command ==> count_in(after, other) == count_in(before, other),
        !succeeded ==> count_in(after, other) == count_in(before, other),
{
    lemma_increment_counts(before, command, other);
}

/// Records how the delivery of a prepared reply to `command` went: a delivered
/// reply counts one use; a failed one becomes a `HandlerFailure` carrying the
/// cause, and counts nothing.
pub fn complete(command: &String, delivery: Result<(), String>, ledger: &mut UsageLedger) -> (r: Result<(), DispatchError>)
    requires
        old(ledger).wf(),
    ensures
        final(ledger).wf(),
        delivery is Ok ==> r is Ok && final(ledger)@ == incremented(old(ledger)@, command@),
        delivery is Err ==> final(ledger)@ == old(ledger)@,
        delivery matches Err(cause) ==> (r matches Err(DispatchError::HandlerFailure { command: c, cause: k })
            && c@ == command@ && k@ == cause@),
        delivery is Ok && count_in(old(ledger)@, command@) < u64::MAX
            ==> count_in(final(ledger)@, command@) == count_in(old(ledger)@, command@) + 1,
        forall|other: Seq<char>| other != command@
            ==> count_in(#[trigger] final(ledger)@, other) == count_in(old(ledger)@, other),
{
    let ghost before = ledger@;
    proof {
        lemma_increment_counts(before, command@, command@);
        assert forall|other: Seq<char>| other != command@
            implies count_in(incremented(before, command@), other) == count_in(before, other) by {
            lemma_increment_counts(before, command@, other);
        }
    }
    match delivery {
        Ok(()) => {
            ledger.increment(command);
            Ok(())
        },
        Err(cause) => Err(DispatchError::HandlerFailure { command: command.clone(), cause }),
    }
}

} // verus!

use vstd::prelude::*;
use vstd::string::*;

use crate::actix::{
    ActixSettings, ActixSettingsView, Address, AddressView, Backlog, KeepAlive, MaxConnectionRate,
    MaxConnections, NumWorkers, Timeout,
};
use crate::text::{decimal_spec, digit_char};

verus! {

/// The keep-alive that the server is given.
#[derive(Debug, Clone, Copy, PartialEq, Eq, Structural)]
pub enum KeepAliveChoice {
    Disabled,
    Os,
    Seconds(usize),
}

/// A timeout that the server is given, in the unit of the setting.
#[derive(Debug, Clone, Copy, PartialEq, Eq, Structural)]
pub enum TimeoutChoice {
    Milliseconds(u64),
    Seconds(u64),
}

/// The milliseconds of a timeout, where they fit in a `u64`.
pub open spec fn millis_spec(t: TimeoutChoice) -> Option<u64> {
    match t {
        TimeoutChoice::Milliseconds(n) => Some(n),
        TimeoutChoice::Seconds(n) => if n * 1000 <= u64::MAX {
            Some((n * 1000) as u64)
        } else {
            None
        },
    }
}

impl TimeoutChoice {
    /// The milliseconds of this timeout; `None` where they do not fit in a `u64`.
    pub fn millis(&self) -> (res: Option<u64>)
        ensures
            res == millis_spec(*self),
    {
        match *self {
            TimeoutChoice::Milliseconds(n) => Some(n),
            TimeoutChoice::Seconds(n) => n.checked_mul(1000),
        }
    }
}

/// One call that a server is given from its settings.
#[derive(Debug, Clone, PartialEq, Eq)]
pub enum ServerCall {
    /// Bind to a `host:port` address.
    Bind(String),
    Workers(usize),
    Backlog(i32),
    MaxConnections(usize),
    MaxConnectionRate(usize),
    KeepAlive(KeepAliveChoice),
    ClientTimeout(TimeoutChoice),
    ClientShutdown(TimeoutChoice),
    /// In seconds.
    ShutdownTimeout(u64),
}

/// A server call, with its address as a sequence of characters.
pub enum ServerCallView {
    Bind(Seq<char>),
    Workers(usize),
    Backlog(i32),
    MaxConnections(usize),
    MaxConnectionRate(usize),
    KeepAlive(KeepAliveChoice),
    ClientTimeout(TimeoutChoice),
    ClientShutdown(TimeoutChoice),
    ShutdownTimeout(u64),
}

impl DeepView for ServerCall {
    type V = ServerCallView;

    open spec fn deep_view(&self) -> ServerCallView {
        match self {
            ServerCall::Bind(a) => ServerCallView::Bind(a@),
            ServerCall::Workers(n) => ServerCallView::Workers(*n),
            ServerCall::Backlog(n) => ServerCallView::Backlog(*n),
            ServerCall::MaxConnections(n) => ServerCallView::MaxConnections(*n),
            ServerCall::MaxConnectionRate(n) => ServerCallView::MaxConnectionRate(*n),
            ServerCall::KeepAlive(k) => ServerCallView::KeepAlive(*k),
            ServerCall::ClientTimeout(t) => ServerCallView::ClientTimeout(*t),
            ServerCall::ClientShutdown(t) => ServerCallView::ClientShutdown(*t),
            ServerCall::ShutdownTimeout(n) => ServerCallView::ShutdownTimeout(*n),
        }
    }
}

/// The timeout that the server is given for a timeout setting.
pub open spec fn timeout_choice(t: Timeout) -> Option<TimeoutChoice> {
    match t {
        Timeout::Default => None,
        Timeout::Milliseconds(n) => Some(TimeoutChoice::Milliseconds(n as u64)),
        Timeout::Seconds(n) => Some(TimeoutChoice::Seconds(n as u64)),
    }
}

/// The call list of an optional call: empty, or that one call.
pub open spec fn optional_call(c: Option<ServerCallView>) -> Seq<ServerCallView> {
    match c {
        Some(c) => seq![c],
        None => Seq::empty(),
    }
}

/// A bind to the `host:port` address of each host, in order.
pub open spec fn bind_calls(hosts: Seq<AddressView>) -> Seq<ServerCallView> {
    hosts.map_values(|a: AddressView| ServerCallView::Bind(bind_spec(a.host, a.port)))
}

/// The workers call, unless the count is the default.
pub open spec fn workers_call(s: ActixSettingsView) -> Option<ServerCallView> {
    match s.num_workers {
        NumWorkers::Default => None,
        NumWorkers::Manual(n) => Some(ServerCallView::Workers(n)),
    }
}

/// The backlog call, with the count as an `i32` (`n as i32`), unless it is
/// the default.
pub open spec fn backlog_call(s: ActixSettingsView) -> Option<ServerCallView> {
    match s.backlog {
        Backlog::Default => None,
        Backlog::Manual(n) => Some(ServerCallView::Backlog(n as i32)),
    }
}

/// The max-connections call, unless the count is the default.
pub open spec fn max_connections_call(s: ActixSettingsView) -> Option<ServerCallView> {
    match s.max_connections {
        MaxConnections::Default => None,
        MaxConnections::Manual(n) => Some(ServerCallView::MaxConnections(n)),
    }
}

/// The max-connection-rate call, unless the count is the default.
pub open spec fn max_connection_rate_call(s: ActixSettingsView) -> Option<ServerCallView> {
    match s.max_connection_rate {
        MaxConnectionRate::Default => None,
        MaxConnectionRate::Manual(n) => Some(ServerCallView::MaxConnectionRate(n)),
    }
}

/// The keep-alive call, unless the keep-alive is the default.
pub open spec fn keep_alive_call(s: ActixSettingsView) -> Option<ServerCallView> {
    match s.keep_alive {
        KeepAlive::Default => None,
        KeepAlive::Disabled => Some(ServerCallView::KeepAlive(KeepAliveChoice::Disabled)),
        KeepAlive::Os => Some(ServerCallView::KeepAlive(KeepAliveChoice::Os)),
        KeepAlive::Seconds(n) => Some(ServerCallView::KeepAlive(KeepAliveChoice::Seconds(n))),
    }
}

/// The client-timeout call, in the unit of the setting, unless it is the default.
pub open spec fn client_timeout_call(s: ActixSettingsView) -> Option<ServerCallView> {
    match timeout_choice(s.client_timeout) {
        Some(t) => Some(ServerCallView::ClientTimeout(t)),
        None => None,
    }
}

/// The client-shutdown call, in the unit of the setting, unless it is the default.
pub open spec fn client_shutdown_call(s: ActixSettingsView) -> Option<ServerCallView> {
    match timeout_choice(s.client_shutdown) {
        Some(t) => Some(ServerCallView::ClientShutdown(t)),
        None => None,
    }
}

/// The shutdown-timeout call in seconds, unless it is the default; a timeout
/// given in milliseconds becomes one second.
pub open spec fn shutdown_timeout_call(s: ActixSettingsView) -> Option<ServerCallView> {
    match s.shutdown_timeout {
        Timeout::Default => None,
        Timeout::Milliseconds(_) => Some(ServerCallView::ShutdownTimeout(1u64)),
        Timeout::Seconds(n) => Some(ServerCallView::ShutdownTimeout(n as u64)),
    }
}

/// The calls that a server is given from the settings `s`, in the order it is
/// given them: the binds, one per host and in order; then workers, backlog,
/// max connections, max connection rate, keep-alive, client timeout, client
/// shutdown and shutdown timeout, each at most once and only where the setting
/// is not the default.
pub open spec fn calls_spec(s: ActixSettingsView) -> Seq<ServerCallView> {
    bind_calls(s.hosts)
        + optional_call(workers_call(s))
        + optional_call(backlog_call(s))
        + optional_call(max_connections_call(s))
        + optional_call(max_connection_rate_call(s))
        + optional_call(keep_alive_call(s))
        + optional_call(client_timeout_call(s))
        + optional_call(client_shutdown_call(s))
        + optional_call(shutdown_timeout_call(s))
}

/// Two settings that agree on the hosts, the counts, the keep-alive and the
/// timeouts give the same calls, whatever their mode, compression, logging
/// and SSL paths.
pub proof fn lemma_calls_depend_on_server_settings(a: ActixSettingsView, b: ActixSettingsView)
    requires
        a.hosts == b.hosts,
        a.num_workers == b.num_workers,
        a.backlog == b.backlog,
        a.max_connections == b.max_connections,
        a.max_connection_rate == b.max_connection_rate,
        a.keep_alive == b.keep_alive,
        a.client_timeout == b.client_timeout,
        a.client_shutdown == b.client_shutdown,
        a.shutdown_timeout == b.shutdown_timeout,
    ensures
        calls_spec(a) == calls_spec(b),
{
}

/// The place of a call's kind in the order that a server is given its calls:
/// binds first, then workers, backlog, max connections, max connection rate,
/// keep-alive, client timeout, client shutdown and shutdown timeout.
pub open spec fn call_rank(c: ServerCallView) -> int {
    match c {
        ServerCallView::Bind(_) => 0,
        ServerCallView::Workers(_) => 1,
        ServerCallView::Backlog(_) => 2,
        ServerCallView::MaxConnections(_) => 3,
        ServerCallView::MaxConnectionRate(_) => 4,
        ServerCallView::KeepAlive(_) => 5,
        ServerCallView::ClientTimeout(_) => 6,
        ServerCallView::ClientShutdown(_) => 7,
        ServerCallView::ShutdownTimeout(_) => 8,
    }
}

/// Whether the calls come in the order of their kinds, with no kind but
/// `Bind` given twice.
pub open spec fn calls_in_order(c: Seq<ServerCallView>) -> bool {
    forall|i: int, j: int|
        0 <= i < j < c.len() ==> call_rank(#[trigger] c[i]) < call_rank(#[trigger] c[j])
            || (c[i] is Bind && c[j] is Bind)
}

proof fn lemma_append_in_order(
    p: Seq<ServerCallView>,
    binds: Seq<ServerCallView>,
    c: Option<ServerCallView>,
    t: int,
)
    requires
        1 <= t,
        calls_in_order(p),
        forall|i: int| 0 <= i < p.len() ==> call_rank(#[trigger] p[i]) < t,
        binds.len() <= p.len(),
        forall|i: int| 0 <= i < binds.len() ==> #[trigger] p[i] == binds[i],
        forall|i: int| binds.len() <= i < p.len() ==> !(#[trigger] p[i] is Bind),
        c matches Some(x) ==> call_rank(x) == t,
    ensures
        calls_in_order(p + optional_call(c)),
        forall|i: int| 0 <= i < (p + optional_call(c)).len() ==> call_rank(#[trigger] (p + optional_call(c))[i]) < t + 1,
        binds.len() <= (p + optional_call(c)).len(),
        forall|i: int| 0 <= i < binds.len() ==> #[trigger] (p + optional_call(c))[i] == binds[i],
        forall|i: int| binds.len() <= i < (p + optional_call(c)).len() ==> !(#[trigger] (p + optional_call(c))[i] is Bind),
{
    let q = p + optional_call(c);
    assert forall|i: int, j: int| 0 <= i < j < q.len() implies call_rank(#[trigger] q[i]) < call_rank(#[trigger] q[j])
        || (q[i] is Bind && q[j] is Bind) by {
        if j < p.len() {
            assert(q[i] == p[i] && q[j] == p[j]);
        } else {
            assert(q[i] == p[i]);
        }
    }
    assert forall|i: int| 0 <= i < q.len() implies call_rank(#[trigger] q[i]) < t + 1 by {
        if i < p.len() {
            assert(q[i] == p[i]);
        }
    }
    assert forall|i: int| 0 <= i < binds.len() implies #[trigger] q[i] == binds[i] by {
        assert(q[i] == p[i]);
    }
    assert forall|i: int| binds.len() <= i < q.len() implies !(#[trigger] q[i] is Bind) by {
        if i < p.len() {
            assert(q[i] == p[i]);
        }
    }
}

/// The calls that a server is given come in this order: first a bind to
/// `host:port` for each host, in the order of the hosts, and no other bind;
/// then the other calls, each kind at most once, in the order workers,
/// backlog, max connections, max connection rate, keep-alive, client timeout,
/// client shutdown, shutdown timeout.
pub proof fn lemma_server_calls_in_order(s: ActixSettingsView)
    ensures
        calls_in_order(calls_spec(s)),
        s.hosts.len() <= calls_spec(s).len(),
        forall|j: int| 0 <= j < s.hosts.len() ==> #[trigger] calls_spec(s)[j]
            == ServerCallView::Bind(s.hosts[j].host + seq![':'] + decimal_spec(s.hosts[j].port as nat)),
        forall|j: int| s.hosts.len() <= j < calls_spec(s).len() ==> !(#[trigger] calls_spec(s)[j] is Bind),
{
    let b = bind_calls(s.hosts);
    let p1 = b + optional_call(workers_call(s));
    let p2 = p1 + optional_call(backlog_call(s));
    let p3 = p2 + optional_call(max_connections_call(s));
    let p4 = p3 + optional_call(max_connection_rate_call(s));
    let p5 = p4 + optional_call(keep_alive_call(s));
    let p6 = p5 + optional_call(client_timeout_call(s));
    let p7 = p6 + optional_call(client_shutdown_call(s));
    assert(calls_in_order(b));
    lemma_append_in_order(b, b, workers_call(s), 1);
    lemma_append_in_order(p1, b, backlog_call(s), 2);
    lemma_append_in_order(p2, b, max_connections_call(s), 3);
    lemma_append_in_order(p3, b, max_connection_rate_call(s), 4);
    lemma_append_in_order(p4, b, keep_alive_call(s), 5);
    lemma_append_in_order(p5, b, client_timeout_call(s), 6);
    lemma_append_in_order(p6, b, client_shutdown_call(s), 7);
    lemma_append_in_order(p7, b, shutdown_timeout_call(s), 8);
    assert forall|j: int| 0 <= j < s.hosts.len() implies #[trigger] calls_spec(s)[j]
        == ServerCallView::Bind(s.hosts[j].host + seq![':'] + decimal_spec(s.hosts[j].port as nat)) by {
        assert(calls_spec(s)[j] == b[j]);
    }
}

proof fn lemma_optional_call_holds(c: Option<ServerCallView>)
    ensures
        forall|y: ServerCallView| optional_call(c).contains(y) <==> c == Some(y),
{
    if let Some(x) = c {
        assert(optional_call(c)[0] == x);
    }
}

proof fn lemma_calls_contain(s: ActixSettingsView, x: ServerCallView)
    ensures
        calls_spec(s).contains(x) <==> (
            (x is Bind && bind_calls(s.hosts).contains(x))
            || workers_call(s) == Some(x)
            || backlog_call(s) == Some(x)
            || max_connections_call(s) == Some(x)
            || max_connection_rate_call(s) == Some(x)
            || keep_alive_call(s) == Some(x)
            || client_timeout_call(s) == Some(x)
            || client_shutdown_call(s) == Some(x)
            || shutdown_timeout_call(s) == Some(x)),
{
    let b = bind_calls(s.hosts);
    let o1 = optional_call(workers_call(s));
    let o2 = optional_call(backlog_call(s));
    let o3 = optional_call(max_connections_call(s));
    let o4 = optional_call(max_connection_rate_call(s));
    let o5 = optional_call(keep_alive_call(s));
    let o6 = optional_call(client_timeout_call(s));
    let o7 = optional_call(client_shutdown_call(s));
    let o8 = optional_call(shutdown_timeout_call(s));
    vstd::seq_lib::lemma_seq_concat_contains_all_elements(b, o1, x);
    vstd::seq_lib::lemma_seq_concat_contains_all_elements(b + o1, o2, x);
    vstd::seq_lib::lemma_seq_concat_contains_all_elements(b + o1 + o2, o3, x);
    vstd::seq_lib::lemma_seq_concat_contains_all_elements(b + o1 + o2 + o3, o4, x);
    vstd::seq_lib::lemma_seq_concat_contains_all_elements(b + o1 + o2 + o3 + o4, o5, x);
    vstd::seq_lib::lemma_seq_concat_contains_all_elements(b + o1 + o2 + o3 + o4 + o5, o6, x);
    vstd::seq_lib::lemma_seq_concat_contains_all_elements(b + o1 + o2 + o3 + o4 + o5 + o6, o7, x);
    vstd::seq_lib::lemma_seq_concat_contains_all_elements(b + o1 + o2 + o3 + o4 + o5 + o6 + o7, o8, x);
    lemma_optional_call_holds(workers_call(s));
    lemma_optional_call_holds(backlog_call(s));
    lemma_optional_call_holds(max_connections_call(s));
    lemma_optional_call_holds(max_connection_rate_call(s));
    lemma_optional_call_holds(keep_alive_call(s));
    lemma_optional_call_holds(client_timeout_call(s));
    lemma_optional_call_holds(client_shutdown_call(s));
    lemma_optional_call_holds(shutdown_timeout_call(s));
    if !(x is Bind) {
        lemma_binds_hold_only_binds(s.hosts, x);
    }
}

proof fn lemma_binds_hold_only_binds(hosts: Seq<AddressView>, x: ServerCallView)
    requires
        !(x is Bind),
    ensures
        !bind_calls(hosts).contains(x),
{
    if bind_calls(hosts).contains(x) {
        let i = choose|i: int| 0 <= i < bind_calls(hosts).len() && bind_calls(hosts)[i] == x;
        assert(bind_calls(hosts)[i] is Bind);
    }
}

/// Each server setting reaches the server as it is set: a count set to `n`
/// gives its call with `n` (the backlog as `n as i32`), the keep-alive gives
/// the keep-alive of the same kind, the client timeouts give the same amount
/// in the same unit, and the shutdown timeout gives its seconds (one second
/// for any amount in milliseconds); a setting left at its default gives no
/// call of its kind.
pub proof fn lemma_server_calls_carry_settings(s: ActixSettingsView)
    ensures
        s.num_workers matches NumWorkers::Manual(n) ==> calls_spec(s).contains(ServerCallView::Workers(n)),
        s.num_workers is Default ==> forall|n: usize| !calls_spec(s).contains(ServerCallView::Workers(n)),
        s.backlog matches Backlog::Manual(n) ==> calls_spec(s).contains(ServerCallView::Backlog(n as i32)),
        s.backlog is Default ==> forall|n: i32| !calls_spec(s).contains(ServerCallView::Backlog(n)),
        s.max_connections matches MaxConnections::Manual(n)
            ==> calls_spec(s).contains(ServerCallView::MaxConnections(n)),
        s.max_connections is Default
            ==> forall|n: usize| !calls_spec(s).contains(ServerCallView::MaxConnections(n)),
        s.max_connection_rate matches MaxConnectionRate::Manual(n)
            ==> calls_spec(s).contains(ServerCallView::MaxConnectionRate(n)),
        s.max_connection_rate is Default
            ==> forall|n: usize| !calls_spec(s).contains(ServerCallView::MaxConnectionRate(n)),
        s.keep_alive is Disabled
            ==> calls_spec(s).contains(ServerCallView::KeepAlive(KeepAliveChoice::Disabled)),
        s.keep_alive is Os ==> calls_spec(s).contains(ServerCallView::KeepAlive(KeepAliveChoice::Os)),
        s.keep_alive matches KeepAlive::Seconds(n)
            ==> calls_spec(s).contains(ServerCallView::KeepAlive(KeepAliveChoice::Seconds(n))),
        s.keep_alive is Default
            ==> forall|k: KeepAliveChoice| !calls_spec(s).contains(ServerCallView::KeepAlive(k)),
        s.client_timeout matches Timeout::Milliseconds(n)
            ==> calls_spec(s).contains(ServerCallView::ClientTimeout(TimeoutChoice::Milliseconds(n as u64))),
        s.client_timeout matches Timeout::Seconds(n)
            ==> calls_spec(s).contains(ServerCallView::ClientTimeout(TimeoutChoice::Seconds(n as u64))),
        s.client_timeout is Default
            ==> forall|t: TimeoutChoice| !calls_spec(s).contains(ServerCallView::ClientTimeout(t)),
        s.client_shutdown matches Timeout::Milliseconds(n)
            ==> calls_spec(s).contains(ServerCallView::ClientShutdown(TimeoutChoice::Milliseconds(n as u64))),
        s.client_shutdown matches Timeout::Seconds(n)
            ==> calls_spec(s).contains(ServerCallView::ClientShutdown(TimeoutChoice::Seconds(n as u64))),
        s.client_shutdown is Default
            ==> forall|t: TimeoutChoice| !calls_spec(s).contains(ServerCallView::ClientShutdown(t)),
        s.shutdown_timeout matches Timeout::Seconds(n)
            ==> calls_spec(s).contains(ServerCallView::ShutdownTimeout(n as u64)),
        s.shutdown_timeout is Milliseconds ==> calls_spec(s).contains(ServerCallView::ShutdownTimeout(1)),
        s.shutdown_timeout is Default
            ==> forall|n: u64| !calls_spec(s).contains(ServerCallView::ShutdownTimeout(n)),
{
    assert forall|x: ServerCallView| #[trigger] calls_spec(s).contains(x) <==> (
        (x is Bind && bind_calls(s.hosts).contains(x))
        || workers_call(s) == Some(x)
        || backlog_call(s) == Some(x)
        || max_connections_call(s) == Some(x)
        || max_connection_rate_call(s) == Some(x)
        || keep_alive_call(s) == Some(x)
        || client_timeout_call(s) == Some(x)
        || client_shutdown_call(s) == Some(x)
        || shutdown_timeout_call(s) == Some(x)) by {
        lemma_calls_contain(s, x);
    }
}

/// The milliseconds of a timeout: `n` for `n` milliseconds, `n * 1000` for
/// `n` seconds where that fits in a `u64`, and none where it does not.
pub proof fn lemma_timeout_choice_millis(n: u64)
    ensures
        millis_spec(TimeoutChoice::Milliseconds(n)) == Some(n),
        n <= u64::MAX / 1000 ==> millis_spec(TimeoutChoice::Seconds(n)) == Some((n * 1000) as u64),
        n > u64::MAX / 1000 ==> millis_spec(TimeoutChoice::Seconds(n)) is None,
{
}

/// The `host:port` text of an address.
pub open spec fn bind_spec(host: Seq<char>, port: u16) -> Seq<char> {
    host + seq![':'] + decimal_spec(port as nat)
}

/// The single decimal digit `d` as text.
fn digit_str(d: u16) -> (res: String)
    requires
        d < 10,
    ensures
        res@ == seq![digit_char(d as int)],
{
    let digits = "0123456789";
    proof {
        reveal_strlit("0123456789");
    }
    let s = digits.substring_char(d as usize, d as usize + 1);
    assert(s@ =~= seq![digit_char(d as int)]);
    s.to_owned()
}

/// The decimal writing of `n`.
fn decimal_string(n: u16) -> (res: String)
    ensures
        res@ == decimal_spec(n as nat),
    decreases n,
{
    if n < 10 {
        digit_str(n)
    } else {
        let mut s = decimal_string(n / 10);
        let d = digit_str(n % 10);
        s.append(d.as_str());
        s
    }
}

/// The `host:port` text of `a`.
fn bind_string(a: &Address) -> (res: String)
    ensures
        res@ == bind_spec(a.host@, a.port),
{
    let mut s = a.host.clone();
    s.append(":");
    proof {
        reveal_strlit(":");
    }
    let port = decimal_string(a.port);
    s.append(port.as_str());
    assert(s@ =~= bind_spec(a.host@, a.port));
    s
}

/// The view of an optional call.
pub open spec fn optional_view(c: Option<ServerCall>) -> Option<ServerCallView> {
    match c {
        Some(c) => Some(c.deep_view()),
        None => None,
    }
}

/// Appends `c` to `calls`, where there is one.
fn push_call(calls: &mut Vec<ServerCall>, c: Option<ServerCall>)
    ensures
        final(calls).deep_view() == old(calls).deep_view() + optional_call(optional_view(c)),
{
    match c {
        Some(c) => {
            calls.push(c);
            assert(calls.deep_view() =~= old(calls).deep_view() + optional_call(optional_view(Some(c))));
        },
        None => {
            assert(calls.deep_view() =~= old(calls).deep_view() + optional_call(optional_view(None::<ServerCall>)));
        },
    }
}

/// The timeout that the server is given for the timeout setting `t`.
fn timeout_choice_exec(t: Timeout) -> (res: Option<TimeoutChoice>)
    ensures
        res == timeout_choice(t),
{
    match t {
        Timeout::Default => None,
        Timeout::Milliseconds(n) => Some(TimeoutChoice::Milliseconds(n as u64)),
        Timeout::Seconds(n) => Some(TimeoutChoice::Seconds(n as u64)),
    }
}

impl ActixSettings {
    /// The calls that a server is given from these settings, in order; the
    /// settings must not enable SSL.
    pub fn server_calls(&self) -> (calls: Vec<ServerCall>)
        requires
            !self.ssl.enabled,
        ensures
            calls.deep_view() == calls_spec(self.deep_view()),
    {
        let ghost s = self.deep_view();
        let mut calls: Vec<ServerCall> = Vec::new();
        let mut i: usize = 0;
        while i < self.hosts.len()
            invariant
                i <= self.hosts@.len(),
                s == self.deep_view(),
                calls.deep_view() =~= bind_calls(s.hosts).take(i as int),
            decreases self.hosts@.len() - i,
        {
            calls.push(ServerCall::Bind(bind_string(&self.hosts[i])));
            assert(bind_calls(s.hosts).take(i + 1) =~= bind_calls(s.hosts).take(i as int).push(
                ServerCallView::Bind(bind_spec(self.hosts@[i as int].host@, self.hosts@[i as int].port)),
            ));
            i = i + 1;
        }
        assert(bind_calls(s.hosts).take(i as int) =~= bind_calls(s.hosts));
        let workers = match self.num_workers {
            NumWorkers::Default => None,
            NumWorkers::Manual(n) => Some(ServerCall::Workers(n)),
        };
        push_call(&mut calls, workers);
        let backlog = match self.backlog {
            Backlog::Default => None,
            Backlog::Manual(n) => Some(ServerCall::Backlog(n as i32)),
        };
        push_call(&mut calls, backlog);
        let max_connections = match self.max_connections {
            MaxConnections::Default => None,
            MaxConnections::Manual(n) => Some(ServerCall::MaxConnections(n)),
        };
        push_call(&mut calls, max_connections);
        let max_connection_rate = match self.max_connection_rate {
            MaxConnectionRate::Default => None,
            MaxConnectionRate::Manual(n) => Some(ServerCall::MaxConnectionRate(n)),
        };
        push_call(&mut calls, max_connection_rate);
        let keep_alive = match self.keep_alive {
            KeepAlive::Default => None,
            KeepAlive::Disabled => Some(ServerCall::KeepAlive(KeepAliveChoice::Disabled)),
            KeepAlive::Os => Some(ServerCall::KeepAlive(KeepAliveChoice::Os)),
            KeepAlive::Seconds(n) => Some(ServerCall::KeepAlive(KeepAliveChoice::Seconds(n))),
        };
        push_call(&mut calls, keep_alive);
        let client_timeout = match timeout_choice_exec(self.client_timeout) {
            Some(t) => Some(ServerCall::ClientTimeout(t)),
            None => None,
        };
        push_call(&mut calls, client_timeout);
        let client_shutdown = match timeout_choice_exec(self.client_shutdown) {
            Some(t) => Some(ServerCall::ClientShutdown(t)),
            None => None,
        };
        push_call(&mut calls, client_shutdown);
        let shutdown_timeout = match self.shutdown_timeout {
            Timeout::Default => None,
            Timeout::Milliseconds(_) => Some(ServerCall::ShutdownTimeout(1u64)),
            Timeout::Seconds(n) => Some(ServerCall::ShutdownTimeout(n as u64)),
        };
        push_call(&mut calls, shutdown_timeout);
        calls
    }
}

} // verus!

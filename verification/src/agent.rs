//! The life of an agent: its settings, how it starts, serves and stops.

use crate::ids::Uuid;
use crate::session::agent_features;
use crate::text::{trim, unicode_trim, views};
use vstd::prelude::*;

verus! {

pub const MIN_DISCOVERY_INTERVAL: u64 = 1;

pub const MAX_DISCOVERY_INTERVAL: u64 = 3_600;

/// How many sightings wait to be recorded.
pub const DISCOVERY_CHANNEL_CAPACITY: usize = 128;

/// How many connections are served at once.
pub const MAX_CONNECTIONS: usize = 32;

/// How many requests are served at once.
pub const MAX_REQUESTS: usize = 64;

/// Why an agent cannot start.
#[derive(Debug, Clone, PartialEq, Eq)]
pub enum AgentFault {
    DiscoveryIntervalOutOfRange,
    NoDataDirectory,
    DeviceNameEmpty,
    HostnameUnreadable(String),
}

/// What the announcements of an agent say that it can do.
pub open spec fn announced_features() -> Seq<Seq<char>> {
    agent_features() + seq!["http-api"@, "websocket-events"@]
}

/// What an announcement lists.
pub fn announced_feature_list() -> (features: Vec<String>)
    ensures
        views(features@) == announced_features(),
{
    let mut features: Vec<String> = crate::session::feature_list();
    let ghost before = views(features@);
    features.push("http-api".to_owned());
    features.push("websocket-events".to_owned());
    assert(views(features@) =~= before + seq!["http-api"@, "websocket-events"@]);
    features
}

/// The name of a host without one of its own.
pub const UNNAMED_DEVICE: &'static str = "FastSync device";

/// The name of a device that was given none: that of its host.
pub fn default_device_name(hostname: Result<String, String>) -> (result: Result<
    String,
    AgentFault,
>)
    ensures
        match (hostname, result) {
            (Ok(host), Ok(name)) => name@ == if unicode_trim(host@).len() == 0 {
                UNNAMED_DEVICE@
            } else {
                unicode_trim(host@)
            },
            (Err(reason), Err(fault)) => fault == AgentFault::HostnameUnreadable(reason),
            _ => false,
        },
{
    match hostname {
        Ok(host) => {
            let name = trim(host.as_str());
            if name.as_str().is_empty() {
                Ok(UNNAMED_DEVICE.to_owned())
            } else {
                Ok(name)
            }
        },
        Err(reason) => Err(AgentFault::HostnameUnreadable(reason)),
    }
}

/// The settings of an agent. A path is whatever the host takes for one, which need
/// not be text.
#[derive(Debug, Clone, PartialEq, Eq)]
pub struct AgentSettings<P> {
    pub data_directory: P,
    pub device_name: String,
    /// Seconds between announcements.
    pub discovery_interval: u64,
    /// Seconds for which a device counts as online after it was seen.
    pub online_ttl: u64,
}

/// Three announcements may be missed, but a device stays online at least ten
/// seconds.
pub open spec fn online_ttl_of(discovery_interval: int) -> int {
    if 3 * discovery_interval >= 10 {
        3 * discovery_interval
    } else {
        10
    }
}

/// The settings of an agent. `data_directory` is the directory that was given
/// or else the default one, `hostname` what the host says of its name.
pub fn agent_settings<P>(
    data_directory: Option<P>,
    device_name: Option<String>,
    hostname: Result<String, String>,
    discovery_interval: u64,
) -> (result: Result<AgentSettings<P>, AgentFault>)
    ensures
        match result {
            Ok(settings) => {
                &&& MIN_DISCOVERY_INTERVAL <= discovery_interval <= MAX_DISCOVERY_INTERVAL
                &&& data_directory == Some(settings.data_directory)
                &&& settings.discovery_interval == discovery_interval
                &&& settings.online_ttl == online_ttl_of(discovery_interval as int)
                &&& match device_name {
                    Some(name) => unicode_trim(name@).len() > 0 && settings.device_name == name,
                    None => hostname is Ok && settings.device_name@ == if unicode_trim(
                        hostname->Ok_0@,
                    ).len() == 0 {
                        UNNAMED_DEVICE@
                    } else {
                        unicode_trim(hostname->Ok_0@)
                    },
                }
            },
            Err(fault) => if !(MIN_DISCOVERY_INTERVAL <= discovery_interval
                <= MAX_DISCOVERY_INTERVAL) {
                fault == AgentFault::DiscoveryIntervalOutOfRange
            } else if data_directory is None {
                fault == AgentFault::NoDataDirectory
            } else {
                match device_name {
                    Some(name) => unicode_trim(name@).len() == 0 && fault
                        == AgentFault::DeviceNameEmpty,
                    None => hostname is Err && fault == AgentFault::HostnameUnreadable(
                        hostname->Err_0,
                    ),
                }
            },
        },
{
    if discovery_interval < MIN_DISCOVERY_INTERVAL || discovery_interval > MAX_DISCOVERY_INTERVAL {
        return Err(AgentFault::DiscoveryIntervalOutOfRange);
    }
    let data_directory = match data_directory {
        Some(path) => path,
        None => return Err(AgentFault::NoDataDirectory),
    };
    let device_name = match device_name {
        Some(name) => {
            if trim(name.as_str()).as_str().is_empty() {
                return Err(AgentFault::DeviceNameEmpty);
            }
            name
        },
        None => match default_device_name(hostname) {
            Ok(name) => name,
            Err(fault) => return Err(fault),
        },
    };
    let tripled: u64 = discovery_interval * 3;
    let online_ttl: u64 = if tripled >= 10 {
        tripled
    } else {
        10
    };
    Ok(AgentSettings { data_directory, device_name, discovery_interval, online_ttl })
}

/// How many files are hashed at once: as many as the machine has processors,
/// but at least one and at most eight; two where that is not known.
pub fn hash_workers(processors: Option<usize>) -> (workers: usize)
    ensures
        1 <= workers <= 8,
        workers == match processors {
            Some(count) => if count < 1 {
                1
            } else if count > 8 {
                8
            } else {
                count as int
            },
            None => 2,
        },
{
    match processors {
        Some(count) => {
            if count < 1 {
                1
            } else if count > 8 {
                8
            } else {
                count
            }
        },
        None => 2,
    }
}

/// The connections of a peer whose trust is revoked, among all by peer.
pub fn disconnect_peer(peers: &[Uuid], peer_id: Uuid) -> (closing: Vec<usize>)
    ensures
        forall|i: int|
            0 <= i < closing@.len() ==> (#[trigger] closing@[i]) < peers@.len()
                && peers@[closing@[i] as int] == peer_id,
        forall|i: int, j: int|
            0 <= i < j < closing@.len() ==> #[trigger] closing@[i] < #[trigger] closing@[j],
        forall|k: int|
            0 <= k < peers@.len() && #[trigger] peers@[k] == peer_id ==> closing@.contains(
                k as usize,
            ),
{
    let mut closing: Vec<usize> = Vec::new();
    let mut i: usize = 0;
    while i < peers.len()
        invariant
            i <= peers.len(),
            forall|k: int|
                0 <= k < closing@.len() ==> (#[trigger] closing@[k]) < i
                    && peers@[closing@[k] as int] == peer_id,
            forall|a: int, b: int|
                0 <= a < b < closing@.len() ==> #[trigger] closing@[a] < #[trigger] closing@[b],
            forall|k: int|
                0 <= k < i && #[trigger] peers@[k] == peer_id ==> closing@.contains(k as usize),
        decreases peers.len() - i,
    {
        let ghost before = closing@;
        if peers[i] == peer_id {
            closing.push(i);
            assert(closing@[before.len() as int] == i);
        }
        assert forall|k: int| 0 <= k < i + 1 && #[trigger] peers@[k] == peer_id implies closing@.contains(
            k as usize,
        ) by {
            if k < i {
                let m = choose|m: int| 0 <= m < before.len() && before[m] == k as usize;
                assert(before.contains(k as usize));
                assert(closing@[m] == k as usize);
            }
        }
        i += 1;
    }
    closing
}

/// The waits, in seconds, before the state of an abandoned job is cleared away.
pub open spec fn retirement_delay(attempt: int) -> Option<u64> {
    if attempt == 0 {
        Some(1)
    } else if attempt == 1 {
        Some(5)
    } else if attempt == 2 {
        Some(30)
    } else {
        None
    }
}

/// Clearing away an abandoned job, in up to three attempts.
pub struct Retirement {
    attempt: u32,
}

#[derive(Debug, Clone, Copy, PartialEq, Eq, Structural)]
pub enum RetirementStep {
    Wait { seconds: u64 },
    Done,
}

impl Retirement {
    pub closed spec fn attempts(self) -> int {
        self.attempt as int
    }

    pub fn new() -> (retirement: Self)
        ensures
            retirement.attempts() == 0,
    {
        Retirement { attempt: 0 }
    }

    /// The wait before the next attempt, if there is one.
    pub fn next(&mut self) -> (step: RetirementStep)
        ensures
            match retirement_delay(old(self).attempts()) {
                Some(seconds) => step == (RetirementStep::Wait { seconds })
                    && final(self).attempts() == old(self).attempts() + 1,
                None => step == RetirementStep::Done && final(self).attempts() == old(
                    self,
                ).attempts(),
            },
    {
        let seconds: u64 = if self.attempt == 0 {
            1
        } else if self.attempt == 1 {
            5
        } else if self.attempt == 2 {
            30
        } else {
            return RetirementStep::Done;
        };
        self.attempt = self.attempt + 1;
        RetirementStep::Wait { seconds }
    }

    /// Whether an attempt ends the matter: the job is connected again, or its
    /// state is cleared away.
    pub fn ends(connected: bool, retired: bool) -> (ends: bool)
        ensures
            ends == (connected || retired),
    {
        connected || retired
    }
}

/// The steps of an agent's life, in their order.
#[derive(Debug, Clone, Copy, PartialEq, Eq, Structural)]
pub enum AgentStep {
    OpenDatabase,
    LoadIdentity,
    BindTransfer,
    BindControl,
    /// Serve transfers and control requests.
    Serve,
    /// Announce the agent and listen for others.
    Discover,
    /// Until a signal or a failed service.
    Run,
    CancelServices,
    StopJobs,
    CloseTransfer,
    JoinServices,
    Done,
}

/// An agent on its way.
pub struct AgentLife {
    step: AgentStep,
    discovery: bool,
    failure: Option<String>,
}

/// What a step that failed leads to.
pub open spec fn step_after_failure(step: AgentStep) -> AgentStep {
    match step {
        AgentStep::Discover => AgentStep::Run,
        AgentStep::Run => AgentStep::CancelServices,
        AgentStep::CancelServices => AgentStep::StopJobs,
        AgentStep::StopJobs => AgentStep::CloseTransfer,
        AgentStep::CloseTransfer => AgentStep::JoinServices,
        _ => AgentStep::Done,
    }
}

/// What a step that went well leads to.
pub open spec fn step_after_success(step: AgentStep, discovery: bool) -> AgentStep {
    match step {
        AgentStep::OpenDatabase => AgentStep::LoadIdentity,
        AgentStep::LoadIdentity => AgentStep::BindTransfer,
        AgentStep::BindTransfer => AgentStep::BindControl,
        AgentStep::BindControl => AgentStep::Serve,
        AgentStep::Serve => if discovery {
            AgentStep::Discover
        } else {
            AgentStep::Run
        },
        AgentStep::Discover => AgentStep::Run,
        AgentStep::Run => AgentStep::CancelServices,
        AgentStep::CancelServices => AgentStep::StopJobs,
        AgentStep::StopJobs => AgentStep::CloseTransfer,
        AgentStep::CloseTransfer => AgentStep::JoinServices,
        AgentStep::JoinServices => AgentStep::Done,
        AgentStep::Done => AgentStep::Done,
    }
}

/// The failure of such a step is the failure of the agent. A failure of
/// discovery or of an orderly stop is only worth a remark.
pub open spec fn is_fatal(step: AgentStep) -> bool {
    match step {
        AgentStep::OpenDatabase
        | AgentStep::LoadIdentity
        | AgentStep::BindTransfer
        | AgentStep::BindControl
        | AgentStep::Serve
        | AgentStep::Run => true,
        _ => false,
    }
}

impl AgentLife {
    pub closed spec fn spec_step(self) -> AgentStep {
        self.step
    }

    pub closed spec fn discovers(self) -> bool {
        self.discovery
    }

    /// What went wrong, once and for all.
    pub closed spec fn spec_failure(self) -> Option<String> {
        self.failure
    }

    pub fn new(discovery: bool) -> (life: Self)
        ensures
            life.spec_step() == AgentStep::OpenDatabase,
            life.discovers() == discovery,
            life.spec_failure() is None,
    {
        AgentLife { step: AgentStep::OpenDatabase, discovery, failure: None }
    }

    pub fn step(&self) -> (step: AgentStep)
        ensures
            step == self.spec_step(),
    {
        self.step
    }

    /// Takes in how the current step went.
    pub fn advance(&mut self, outcome: Result<(), String>)
        ensures
            final(self).discovers() == old(self).discovers(),
            match outcome {
                Ok(_) => {
                    &&& final(self).spec_step() == step_after_success(
                        old(self).spec_step(),
                        old(self).discovers(),
                    )
                    &&& final(self).spec_failure() == old(self).spec_failure()
                },
                Err(reason) => {
                    &&& final(self).spec_step() == step_after_failure(old(self).spec_step())
                    &&& final(self).spec_failure() == if is_fatal(old(self).spec_step()) {
                        Some(reason)
                    } else {
                        old(self).spec_failure()
                    }
                },
            },
    {
        let step = self.step;
        match outcome {
            Ok(_) => {
                self.step = match step {
                    AgentStep::OpenDatabase => AgentStep::LoadIdentity,
                    AgentStep::LoadIdentity => AgentStep::BindTransfer,
                    AgentStep::BindTransfer => AgentStep::BindControl,
                    AgentStep::BindControl => AgentStep::Serve,
                    AgentStep::Serve => {
                        if self.discovery {
                            AgentStep::Discover
                        } else {
                            AgentStep::Run
                        }
                    },
                    AgentStep::Discover => AgentStep::Run,
                    AgentStep::Run => AgentStep::CancelServices,
                    AgentStep::CancelServices => AgentStep::StopJobs,
                    AgentStep::StopJobs => AgentStep::CloseTransfer,
                    AgentStep::CloseTransfer => AgentStep::JoinServices,
                    AgentStep::JoinServices => AgentStep::Done,
                    AgentStep::Done => AgentStep::Done,
                };
            },
            Err(reason) => {
                self.step = match step {
                    AgentStep::Discover => AgentStep::Run,
                    AgentStep::Run => AgentStep::CancelServices,
                    AgentStep::CancelServices => AgentStep::StopJobs,
                    AgentStep::StopJobs => AgentStep::CloseTransfer,
                    AgentStep::CloseTransfer => AgentStep::JoinServices,
                    _ => AgentStep::Done,
                };
                if matches!(
                    step,
                    AgentStep::OpenDatabase
                    | AgentStep::LoadIdentity
                    | AgentStep::BindTransfer
                    | AgentStep::BindControl
                    | AgentStep::Serve
                    | AgentStep::Run
                ) {
                    self.failure = Some(reason);
                }
            },
        }
    }

    /// How the agent has ended.
    pub fn into_result(self) -> (result: Result<(), String>)
        ensures
            result == match self.spec_failure() {
                Some(reason) => Err::<(), String>(reason),
                None => Ok(()),
            },
    {
        match self.failure {
            Some(reason) => Err(reason),
            None => Ok(()),
        }
    }
}

/// How far a step is from the end, counted along the orderly course.
pub open spec fn steps_left(step: AgentStep) -> nat {
    match step {
        AgentStep::OpenDatabase => 11,
        AgentStep::LoadIdentity => 10,
        AgentStep::BindTransfer => 9,
        AgentStep::BindControl => 8,
        AgentStep::Serve => 7,
        AgentStep::Discover => 6,
        AgentStep::Run => 5,
        AgentStep::CancelServices => 4,
        AgentStep::StopJobs => 3,
        AgentStep::CloseTransfer => 2,
        AgentStep::JoinServices => 1,
        AgentStep::Done => 0,
    }
}

/// An agent that has begun to run stops its jobs, closes the transfers and joins
/// its services before it ends, however each of these steps goes; and every step
/// brings it nearer to its end.
pub proof fn law_running_agents_stop_in_order(step: AgentStep, discovery: bool)
    ensures
        step != AgentStep::Done ==> steps_left(step_after_success(step, discovery)) < steps_left(
            step,
        ) && steps_left(step_after_failure(step)) < steps_left(step),
        step_after_failure(AgentStep::Discover) == AgentStep::Run,
        step == AgentStep::Run || step == AgentStep::CancelServices || step == AgentStep::StopJobs
            || step == AgentStep::CloseTransfer ==> step_after_failure(step) == step_after_success(
            step,
            discovery,
        ) && step_after_failure(step) != AgentStep::Done,
{
}

/// A service of the agent.
#[derive(Debug, Clone, Copy, PartialEq, Eq, Structural)]
pub enum Service {
    Transfer,
    Control,
}

/// The failure that a service which has stopped means for the agent.
#[derive(Debug, Clone, PartialEq, Eq)]
pub enum ServiceFailure {
    Failed { service: Service, reason: String },
    StoppedUnexpectedly { service: Service },
}

/// A service may stop only because the agent does.
pub fn service_failure(service: Service, outcome: Result<(), String>, cancelled: bool) -> (failure:
    Option<ServiceFailure>)
    ensures
        failure == match outcome {
            Err(reason) => Some(ServiceFailure::Failed { service, reason }),
            Ok(_) => if cancelled {
                None
            } else {
                Some(ServiceFailure::StoppedUnexpectedly { service })
            },
        },
{
    match outcome {
        Err(reason) => Some(ServiceFailure::Failed { service, reason }),
        Ok(_) => {
            if cancelled {
                None
            } else {
                Some(ServiceFailure::StoppedUnexpectedly { service })
            }
        },
    }
}

/// A device counts as online for three rounds of announcements, and for ten seconds at
/// least.
pub proof fn law_online_for_three_rounds(discovery_interval: int)
    ensures
        online_ttl_of(discovery_interval) >= 3 * discovery_interval,
        online_ttl_of(discovery_interval) >= 10,
        online_ttl_of(discovery_interval) == 10 || online_ttl_of(discovery_interval) == 3
            * discovery_interval,
{
}

/// A job that could not be retired is tried again three times, each time after longer.
pub proof fn law_retirement_is_tried_three_more_times(attempt: int)
    requires
        attempt >= 0,
    ensures
        retirement_delay(attempt) is Some <==> attempt < 3,
        attempt < 2 ==> retirement_delay(attempt)->0 < retirement_delay(attempt + 1)->0,
        retirement_delay(0) == Some(1u64),
{
}

/// An agent begins in order: its database, its identity, its two sockets, then it
/// serves, announces itself where it should, and runs. What fails before it serves ends
/// it at once.
pub proof fn law_agents_begin_in_order(discovery: bool)
    ensures
        step_after_success(AgentStep::OpenDatabase, discovery) is LoadIdentity,
        step_after_success(AgentStep::LoadIdentity, discovery) is BindTransfer,
        step_after_success(AgentStep::BindTransfer, discovery) is BindControl,
        step_after_success(AgentStep::BindControl, discovery) is Serve,
        step_after_success(AgentStep::Serve, true) is Discover,
        step_after_success(AgentStep::Serve, false) is Run,
        step_after_success(AgentStep::Discover, discovery) is Run,
        step_after_success(AgentStep::Run, discovery) is CancelServices,
        step_after_success(AgentStep::CancelServices, discovery) is StopJobs,
        step_after_success(AgentStep::StopJobs, discovery) is CloseTransfer,
        step_after_success(AgentStep::CloseTransfer, discovery) is JoinServices,
        step_after_success(AgentStep::JoinServices, discovery) is Done,
        step_after_failure(AgentStep::OpenDatabase) is Done,
        step_after_failure(AgentStep::LoadIdentity) is Done,
        step_after_failure(AgentStep::BindTransfer) is Done,
        step_after_failure(AgentStep::BindControl) is Done,
        step_after_failure(AgentStep::Serve) is Done,
{
}

/// A failure is that of the agent itself while it begins and while it runs; discovery
/// and what it does to stop may fail without that.
pub proof fn law_which_failures_are_fatal(step: AgentStep)
    ensures
        is_fatal(step) <==> !(step is Discover || step is CancelServices || step is StopJobs
            || step is CloseTransfer || step is JoinServices || step is Done),
{
}

} // verus!

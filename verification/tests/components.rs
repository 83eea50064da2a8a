//! Component-level tests: the event bus, channels, the worker loop, the
//! recorder, graph validation, clocks and plans.

use std::sync::{Arc, Mutex};
use std::time::Duration;

use feo::activity::{Activity, ActivityBuilder};
use feo::channel::channel;
use feo::error::Error;
use feo::events::{EventBus, EventId};
use feo::graph::{validate_graph, ConfigError};
use feo::ids::{ActivityId, AgentId, WorkerId};
use feo::program::next_cycle_start;
use feo::recorder::{ConnectRecorder, Recorder, RecorderConfig, RecordingRules};
use feo::agent::{validate_primary_config, NodeAddress, PrimaryConfig};
use feo::signals::{Signal, SignalKind};
use feo::tasks::{Hook, HookBehavior, InvokePlan};
use feo::timestamp::{Clock, SyncInfo, Timestamp};
use feo::topicspec::Direction;
use feo::worker::{ConnectWorker, MpscWorkerConnector, Worker};

#[test]
fn event_bus_trigger_is_idempotent() {
    let mut bus = EventBus::new();
    let e = EventId::ActivityStep(ActivityId(7));
    assert!(!bus.is_fired(e));
    bus.trigger(e);
    assert!(bus.is_fired(e));
    // Triggering a fired name again changes nothing observable.
    bus.trigger(e);
    assert!(bus.is_fired(e));
    bus.reset(e);
    assert!(!bus.is_fired(e));
}

#[test]
fn event_bus_reset_all_rearms_body_events() {
    let mut bus = EventBus::new();
    let step = EventId::ActivityStep(ActivityId(1));
    let done = EventId::ActivityStepCompleted(ActivityId(1));
    let alive = EventId::AgentAlive(AgentId(9));
    bus.trigger(step);
    bus.trigger(done);
    bus.trigger(alive);
    bus.reset_all(&vec![step, done]);
    assert!(!bus.is_fired(step));
    assert!(!bus.is_fired(done));
    // Events outside the list keep their flag.
    assert!(bus.is_fired(alive));
}

#[test]
fn channel_carries_signals_in_order() {
    let (mut tx, mut rx) = channel::<Signal>();
    let t = Timestamp(1);
    tx.send(Signal::Startup((ActivityId(1), t))).unwrap();
    tx.send(Signal::Step((ActivityId(1), t))).unwrap();
    let first = rx.receive(Duration::from_millis(50)).unwrap();
    let second = rx.receive(Duration::from_millis(50)).unwrap();
    assert_eq!(first, Some(Signal::Startup((ActivityId(1), t))));
    assert_eq!(second, Some(Signal::Step((ActivityId(1), t))));
    // Nothing more: the receive times out.
    let third = rx.receive(Duration::from_millis(10)).unwrap();
    assert_eq!(third, None);
    // With the sender gone, the channel reports closure.
    drop(tx);
    let closed = rx.receive(Duration::from_millis(10));
    assert!(matches!(closed, Err(Error::Channel(_))));
}

#[derive(Clone)]
struct LogActivity {
    id: ActivityId,
    log: Arc<Mutex<Vec<(u64, &'static str)>>>,
}

impl Activity for LogActivity {
    fn id(&self) -> ActivityId {
        self.id
    }

    fn startup(&mut self) {
        self.log.lock().unwrap().push((self.id.0, "startup"));
    }

    fn step(&mut self) {
        self.log.lock().unwrap().push((self.id.0, "step"));
    }

    fn shutdown(&mut self) {
        self.log.lock().unwrap().push((self.id.0, "shutdown"));
    }
}

struct LogActivityBuilder {
    log: Arc<Mutex<Vec<(u64, &'static str)>>>,
}

impl ActivityBuilder for LogActivityBuilder {
    type Built = LogActivity;

    fn build(self, id: ActivityId) -> LogActivity {
        LogActivity { id, log: self.log }
    }
}

#[test]
fn worker_obeys_scheduler_signals() {
    let log: Arc<Mutex<Vec<(u64, &'static str)>>> = Arc::new(Mutex::new(Vec::new()));
    let (mut to_worker, worker_rx) = channel::<Signal>();
    let (worker_tx, mut from_worker) = channel::<Signal>();
    let connector = MpscWorkerConnector { receiver: worker_rx, sender: worker_tx };
    let builders = vec![
        (ActivityId(1), LogActivityBuilder { log: log.clone() }),
        (ActivityId(2), LogActivityBuilder { log: log.clone() }),
    ];
    let worker = Worker::new(WorkerId(0), builders, connector, Duration::from_millis(20));

    let t = Timestamp(0);
    to_worker.send(Signal::StartupSync(SyncInfo { reference_nanos: 5 })).unwrap();
    to_worker.send(Signal::Startup((ActivityId(1), t))).unwrap();
    to_worker.send(Signal::Startup((ActivityId(2), t))).unwrap();
    to_worker.send(Signal::Step((ActivityId(1), t))).unwrap();
    to_worker.send(Signal::Step((ActivityId(2), t))).unwrap();
    to_worker.send(Signal::Shutdown((ActivityId(1), t))).unwrap();
    to_worker.send(Signal::Shutdown((ActivityId(2), t))).unwrap();
    drop(to_worker);

    // The worker consumes the queue, then ends with the channel error.
    let result = worker.run(100);
    assert!(matches!(result, Err(Error::Channel(_))));

    // One Ready acknowledgement per hook trigger, for the right activities.
    let mut acks = Vec::new();
    while let Ok(Some(signal)) = from_worker.receive(Duration::from_millis(10)) {
        acks.push(signal);
    }
    assert_eq!(acks.len(), 6);
    assert!(matches!(acks[0], Signal::Ready((ActivityId(1), _))));
    assert!(matches!(acks[1], Signal::Ready((ActivityId(2), _))));

    let entries = log.lock().unwrap().clone();
    assert_eq!(
        entries,
        vec![
            (1, "startup"),
            (2, "startup"),
            (1, "step"),
            (2, "step"),
            (1, "shutdown"),
            (2, "shutdown"),
        ]
    );
}

#[test]
fn worker_rejects_unknown_activity() {
    let log: Arc<Mutex<Vec<(u64, &'static str)>>> = Arc::new(Mutex::new(Vec::new()));
    let (mut to_worker, worker_rx) = channel::<Signal>();
    let (worker_tx, _from_worker) = channel::<Signal>();
    let connector = MpscWorkerConnector { receiver: worker_rx, sender: worker_tx };
    let builders = vec![(ActivityId(1), LogActivityBuilder { log })];
    let worker = Worker::new(WorkerId(0), builders, connector, Duration::from_millis(20));
    to_worker.send(Signal::Step((ActivityId(9), Timestamp(0)))).unwrap();
    let result = worker.run(10);
    assert!(matches!(result, Err(Error::ActivityNotFound(ActivityId(9)))));
}

#[test]
fn worker_rejects_protocol_signal() {
    let log: Arc<Mutex<Vec<(u64, &'static str)>>> = Arc::new(Mutex::new(Vec::new()));
    let (mut to_worker, worker_rx) = channel::<Signal>();
    let (worker_tx, _from_worker) = channel::<Signal>();
    let connector = MpscWorkerConnector { receiver: worker_rx, sender: worker_tx };
    let builders = vec![(ActivityId(1), LogActivityBuilder { log })];
    let worker = Worker::new(WorkerId(0), builders, connector, Duration::from_millis(20));
    to_worker.send(Signal::TaskChainStart(Timestamp(0))).unwrap();
    let result = worker.run(10);
    assert!(matches!(result, Err(Error::UnexpectedSignal(Signal::TaskChainStart(_)))));
}

struct MpscRecorderConnector {
    receiver: feo::channel::Receiver<Signal>,
    sender: feo::channel::Sender<Signal>,
}

impl ConnectRecorder for MpscRecorderConnector {
    fn receive(&mut self, timeout: Duration) -> Result<Option<Signal>, Error> {
        self.receiver.receive(timeout)
    }

    fn send_to_scheduler(&mut self, signal: &Signal) -> Result<(), Error> {
        self.sender.send(*signal)
    }
}

#[test]
fn recorder_keeps_selected_signals_and_acknowledges() {
    let (mut to_recorder, recorder_rx) = channel::<Signal>();
    let (recorder_tx, mut from_recorder) = channel::<Signal>();
    let connector = MpscRecorderConnector { receiver: recorder_rx, sender: recorder_tx };
    let config = RecorderConfig {
        id: AgentId(50),
        record_file: "record.bin",
        rules: RecordingRules { kinds: vec![SignalKind::Ready, SignalKind::Step] },
        receive_timeout: Duration::from_millis(20),
        bind_address_senders: NodeAddress::Tcp(String::from("127.0.0.1:9000")),
        bind_address_receivers: NodeAddress::Tcp(String::from("127.0.0.1:9001")),
    };
    let mut recorder = Recorder::new(config, connector);

    let t = Timestamp(3);
    to_recorder.send(Signal::TaskChainStart(t)).unwrap();
    to_recorder.send(Signal::Step((ActivityId(1), t))).unwrap();
    to_recorder.send(Signal::Ready((ActivityId(1), t))).unwrap();
    to_recorder.send(Signal::TaskChainEnd(t)).unwrap();
    drop(to_recorder);

    let result = recorder.run(100);
    assert!(matches!(result, Err(Error::Channel(_))));

    // Only the selected variants were kept, in arrival order.
    assert_eq!(
        recorder.entries,
        vec![Signal::Step((ActivityId(1), t)), Signal::Ready((ActivityId(1), t))]
    );
    // The chain end was acknowledged under the recorder's ID.
    let ack = from_recorder.receive(Duration::from_millis(10)).unwrap();
    assert!(matches!(ack, Some(Signal::RecorderReady((AgentId(50), _)))));
}

#[test]
fn graph_validation_reports_each_fault() {
    let ok = vec![
        (ActivityId(0), vec![]),
        (ActivityId(1), vec![ActivityId(0)]),
        (ActivityId(2), vec![ActivityId(0), ActivityId(1)]),
    ];
    assert_eq!(validate_graph(&ok), Ok(()));

    let duplicate = vec![
        (ActivityId(0), vec![]),
        (ActivityId(0), vec![]),
    ];
    assert_eq!(
        validate_graph(&duplicate),
        Err(ConfigError::DuplicateActivity(ActivityId(0)))
    );

    // A forward reference is a cycle in disguise: B waits on C, which stands
    // later.
    let unresolved = vec![
        (ActivityId(1), vec![ActivityId(2)]),
        (ActivityId(2), vec![ActivityId(1)]),
    ];
    assert_eq!(
        validate_graph(&unresolved),
        Err(ConfigError::UnresolvedDependency(ActivityId(2)))
    );

    let missing = vec![(ActivityId(1), vec![ActivityId(9)])];
    assert_eq!(
        validate_graph(&missing),
        Err(ConfigError::UnresolvedDependency(ActivityId(9)))
    );
}

#[test]
fn clock_aligns_to_reference() {
    let clock = Clock::new(SyncInfo { reference_nanos: 1_000 }, 400);
    assert_eq!(clock.timestamp_at(400), Timestamp(1_000));
    assert_eq!(clock.timestamp_at(650), Timestamp(1_250));
    // A reading older than the synchronisation point maps to the reference.
    assert_eq!(clock.timestamp_at(100), Timestamp(1_000));
    // Saturation at the end of the range.
    let late = Clock::new(SyncInfo { reference_nanos: u64::MAX - 5 }, 0);
    assert_eq!(late.timestamp_at(100), Timestamp(u64::MAX));
}

#[test]
fn invoke_plan_first_match_wins() {
    let plan = InvokePlan {
        entries: vec![
            HookBehavior { activity: ActivityId(1), hook: Hook::Step, ok: false, duration_ms: 7 },
            HookBehavior { activity: ActivityId(1), hook: Hook::Step, ok: true, duration_ms: 9 },
        ],
    };
    assert_eq!(plan.behavior(ActivityId(1), Hook::Step), (false, 7));
    // An unplanned hook succeeds immediately.
    assert_eq!(plan.behavior(ActivityId(1), Hook::Stop), (true, 0));
    assert_eq!(plan.behavior(ActivityId(2), Hook::Step), (true, 0));
    // The empty plan lets every hook succeed.
    let empty = InvokePlan::all_ok();
    assert_eq!(empty.behavior(ActivityId(1), Hook::Step), (true, 0));
}

#[test]
fn signal_kinds() {
    let t = Timestamp(0);
    assert_eq!(Signal::Step((ActivityId(1), t)).kind(), SignalKind::Step);
    assert_eq!(Signal::TaskChainEnd(t).kind(), SignalKind::TaskChainEnd);
    assert_eq!(
        Signal::StartupSync(SyncInfo { reference_nanos: 0 }).kind(),
        SignalKind::StartupSync
    );
}

#[test]
fn direction_defaults_to_incoming() {
    assert_eq!(Direction::default(), Direction::Incoming);
    assert_ne!(Direction::Incoming, Direction::Outgoing);
}

#[test]
fn next_cycle_start_paces_fixed_schedule() {
    // Early finish: wait for the deadline.
    assert_eq!(next_cycle_start(100, 10, 104), 110);
    // Exactly on time.
    assert_eq!(next_cycle_start(100, 10, 110), 110);
    // Overrun: the next cycle begins immediately.
    assert_eq!(next_cycle_start(100, 10, 117), 117);
}

#[test]
fn primary_config_is_checked_at_load() {
    let config = PrimaryConfig {
        id: AgentId(100),
        cycle_time: Duration::from_millis(10),
        activity_dependencies: vec![
            (ActivityId(0), vec![]),
            (ActivityId(1), vec![ActivityId(0)]),
        ],
        recorder_ids: vec![],
        worker_assignments: vec![(WorkerId(0), vec![ActivityId(0), ActivityId(1)])],
        timeout: Duration::from_millis(100),
        bind_address_senders: NodeAddress::Tcp(String::from("127.0.0.1:9000")),
        bind_address_receivers: NodeAddress::Tcp(String::from("127.0.0.1:9001")),
        worker_agent_map: vec![(WorkerId(0), AgentId(100))],
        activity_worker_map: vec![
            (ActivityId(0), WorkerId(0)),
            (ActivityId(1), WorkerId(0)),
        ],
    };
    assert_eq!(validate_primary_config(&config), Ok(()));

    let unassigned = PrimaryConfig { activity_worker_map: vec![(ActivityId(0), WorkerId(0))], ..config };
    assert_eq!(
        validate_primary_config(&unassigned),
        Err(ConfigError::ActivityUnassigned(ActivityId(1)))
    );
}

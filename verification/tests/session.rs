use rust_tcp::args::{Args, ClientArgs, Commands, ServerArgs};
use rust_tcp::client::{summarize, ConnectPlan, ConnectStep, Report};
use rust_tcp::decoder::{Decoder, Progress};
use rust_tcp::latency::Latency;
use rust_tcp::sender::{total_packets, SendError, SendStep, Sender};
use rust_tcp::server::{sender_for, Action, Event, Phase, Session};

fn drain(sender: &mut Sender, now_ms: i64) -> (Vec<Vec<u8>>, Vec<SendStep>) {
    let mut frames = Vec::new();
    let mut steps = Vec::new();
    loop {
        let step = sender.next_frame(now_ms);
        if step == SendStep::Done {
            assert!(sender.frame().is_empty());
            break;
        }
        frames.push(sender.frame().to_vec());
        steps.push(step);
    }
    (frames, steps)
}

fn receive(frames: &[Vec<u8>], now_ms: i64) -> Latency {
    let mut d = Decoder::new();
    for f in frames {
        d.push(f).unwrap();
    }
    loop {
        match d.poll(now_ms).unwrap() {
            Progress::Sample { .. } => {}
            Progress::Finished => break,
            Progress::NeedBytes => panic!("stream ended without terminator"),
        }
    }
    d.into_latency()
}

#[test]
fn total_is_rate_times_duration() {
    assert_eq!(total_packets(5, 2), Some(10));
    assert_eq!(total_packets(0, 9), Some(0));
    assert_eq!(total_packets(9, 0), Some(0));
    assert_eq!(total_packets(u64::MAX, 1), Some(u64::MAX));
    assert_eq!(total_packets(u64::MAX, 2), None);
    assert_eq!(total_packets(1 << 32, 1 << 32), None);
}

#[test]
fn server_sends_ten_packets_and_a_terminator() {
    let mut sender = Sender::new(5, 2, 32).unwrap();
    assert_eq!(sender.total(), 10);
    assert_eq!(sender.sent(), 0);
    let (frames, steps) = drain(&mut sender, 1_000);
    assert_eq!(frames.len(), 11);
    for (i, step) in steps[..10].iter().enumerate() {
        assert_eq!(*step, SendStep::Data { sequence: i as u64 });
        assert_eq!(frames[i].len(), 32);
        assert_eq!(&frames[i][..4], &[0, 0, 0, 28]);
        assert_eq!(&frames[i][4..12], &1_000i64.to_be_bytes());
        assert_eq!(&frames[i][12..20], &(i as u64).to_be_bytes());
        assert_eq!(&frames[i][20..], &[0u8; 12]);
    }
    assert_eq!(steps[10], SendStep::Terminator);
    assert_eq!(frames[10], vec![0, 0, 0, 0]);
    assert_eq!(sender.sent(), 10);
    assert_eq!(sender.next_frame(0), SendStep::Done);
    assert_eq!(sender.wait_before_next(), None);
}

#[test]
fn three_connections_report_thirty_samples() {
    let mut reports = Vec::new();
    for _ in 0..3 {
        let mut sender = Sender::new(5, 2, 32).unwrap();
        let (frames, _) = drain(&mut sender, 1_000);
        let l = receive(&frames, 1_004);
        assert_eq!(l.num(), 10);
        reports.push(l);
    }
    let total = Latency::from_iter(reports.iter());
    assert_eq!(total.num(), 30);
    assert_eq!((total.min(), total.max(), total.sum()), (4, 4, 120));
    // (2 * 120 - 1) / 30 = 7
    assert_eq!(summarize(&reports), Some(Report { num: 30, min: 4, max: 4, average: 7 }));
}

#[test]
fn timestamps_follow_the_clock_handed_in() {
    let mut sender = Sender::new(1, 3, 20).unwrap();
    let mut d = Decoder::new();
    for (i, now) in [10i64, 20, 35].iter().enumerate() {
        assert_eq!(sender.next_frame(*now), SendStep::Data { sequence: i as u64 });
        d.push(sender.frame()).unwrap();
        assert_eq!(
            d.poll(now + 2),
            Ok(Progress::Sample { latency_ms: 2, sequence: i as u64 })
        );
    }
    assert_eq!(sender.next_frame(40), SendStep::Terminator);
    d.push(sender.frame()).unwrap();
    assert_eq!(d.poll(50), Ok(Progress::Finished));
}

#[test]
fn sender_paces_only_data_packets() {
    let sender = Sender::new(0, 10, 20).unwrap();
    assert_eq!(sender.total(), 0);
    assert_eq!(sender.wait_before_next(), None);
    let mut far = Sender::new(1, 1_000, 20).unwrap();
    assert_eq!(far.wait_before_next(), None);
    far.next_frame(0);
    let wait = far.wait_before_next().unwrap();
    assert!(wait > 900 && wait <= 1_000);
}

#[test]
fn nothing_to_send_is_a_bare_terminator() {
    let mut sender = Sender::new(0, 10, 20).unwrap();
    let (frames, steps) = drain(&mut sender, 0);
    assert_eq!(steps, vec![SendStep::Terminator]);
    assert_eq!(frames, vec![vec![0u8, 0, 0, 0]]);
    assert_eq!(receive(&frames, 0).num(), 0);
}

#[test]
fn sender_refuses_bad_configurations() {
    assert_eq!(Sender::new(5, 2, 19).err(), Some(SendError::PacketLen));
    assert_eq!(Sender::new(5, 2, 0).err(), Some(SendError::PacketLen));
    assert_eq!(Sender::new(u64::MAX, 2, 19).err(), Some(SendError::PacketLen));
    assert_eq!(Sender::new(u64::MAX, 2, 20).err(), Some(SendError::TooManyPackets));
    assert_eq!(Sender::new(1, u64::MAX, 20).err(), Some(SendError::ScheduleTooLong));
    assert!(Sender::new(1, u64::MAX / 1000, 20).is_ok());
    assert!(Sender::new(5, 2, 20).is_ok());
}

#[test]
fn sender_from_server_args() {
    let args = ServerArgs { addr: String::from("0.0.0.0:11111"), pps: 5, secs: 10, packet_len: 1000 };
    let mut sender = sender_for(&args).unwrap();
    assert_eq!(sender.total(), 50);
    sender.next_frame(1);
    assert_eq!(sender.frame().len(), 1000);
    let short = ServerArgs { packet_len: 4, ..args };
    assert_eq!(sender_for(&short).err(), Some(SendError::PacketLen));
}

#[test]
fn args_carry_the_configuration() {
    let args = Args {
        command: Commands::Client(ClientArgs {
            target: String::from("h"),
            conns: 1,
            cps: 1000,
            print_latency: false,
        }),
    };
    match args.clone().command {
        Commands::Client(c) => assert_eq!((c.target.as_str(), c.conns, c.cps), ("h", 1, 1000)),
        Commands::Server(_) => panic!("client expected"),
    }
}

#[test]
fn fast_client_connects_without_sleeping() {
    let mut plan = ConnectPlan::new(5, 1_000_000);
    let mut steps = Vec::new();
    loop {
        let s = plan.step();
        if s == ConnectStep::Done {
            break;
        }
        steps.push(s);
    }
    let mut expected = vec![ConnectStep::Connect; 5];
    expected.extend(vec![ConnectStep::Retire; 5]);
    assert_eq!(steps, expected);
    assert_eq!((plan.issued(), plan.established()), (5, 5));
}

#[test]
fn slow_client_retires_instead_of_sleeping() {
    let mut plan = ConnectPlan::new(3, 1);
    assert_eq!(plan.step_with(None), ConnectStep::Connect);
    assert_eq!(plan.step_with(Some(900)), ConnectStep::Retire);
    assert_eq!(plan.step_with(Some(800)), ConnectStep::SleepThenConnect { millis: 800 });
    assert_eq!(plan.step_with(None), ConnectStep::Connect);
    assert_eq!((plan.issued(), plan.established()), (3, 1));
    assert_eq!(plan.step_with(Some(5)), ConnectStep::Retire);
    assert_eq!(plan.step_with(None), ConnectStep::Retire);
    assert_eq!(plan.step_with(None), ConnectStep::Done);
    assert_eq!(plan.step_with(Some(1)), ConnectStep::Done);
    assert_eq!((plan.issued(), plan.established()), (3, 3));
}

#[test]
fn paced_client_takes_two_steps_per_connection() {
    let mut plan = ConnectPlan::new(4, 0);
    let mut count = 0;
    let mut sleeps = 0;
    loop {
        match plan.step() {
            ConnectStep::Done => break,
            ConnectStep::SleepThenConnect { millis } => {
                assert_eq!(millis, u64::MAX / 2);
                sleeps += 1;
            }
            _ => {}
        }
        count += 1;
    }
    assert_eq!(count, 8);
    assert_eq!(sleeps, 4);
    assert_eq!(plan.established(), 4);
}

#[test]
fn no_connections_is_done_at_once() {
    let mut plan = ConnectPlan::new(0, 1000);
    assert_eq!(plan.step(), ConnectStep::Done);
}

#[test]
fn session_runs_through_its_phases() {
    let mut s = Session::new();
    assert_eq!(s.phase(), Phase::Accepting);
    assert_eq!(s.on_event(Event::Tick), Action::Nothing);
    assert_eq!(s.on_event(Event::Accepted), Action::Retain);
    assert_eq!(s.on_event(Event::Accepted), Action::Retain);
    assert_eq!(s.on_event(Event::Tick), Action::Announce { accepted: 2 });
    assert_eq!(s.on_event(Event::Tick), Action::Nothing);
    assert_eq!(s.on_event(Event::Accepted), Action::Retain);
    assert_eq!(s.on_event(Event::Trigger), Action::StartSenders { count: 3 });
    assert_eq!(s.phase(), Phase::Triggered);
    assert_eq!(s.on_event(Event::Accepted), Action::Discard);
    assert_eq!(s.on_event(Event::Tick), Action::Nothing);
    assert_eq!(s.accepted(), 3);
    assert_eq!(s.on_event(Event::Spawned), Action::Nothing);
    assert_eq!(s.phase(), Phase::Sending);
    assert_eq!(s.on_event(Event::Reported { ok: true }), Action::Nothing);
    assert_eq!(s.on_event(Event::Spawned), Action::Nothing);
    assert_eq!(s.on_event(Event::Spawned), Action::AwaitReports);
    assert_eq!(s.phase(), Phase::Joining);
    assert_eq!(s.on_event(Event::Spawned), Action::Nothing);
    assert_eq!(s.on_event(Event::Reported { ok: true }), Action::AwaitReports);
    assert_eq!(s.on_event(Event::Reported { ok: true }), Action::AwaitReports);
    assert_eq!(s.on_event(Event::Reported { ok: true }), Action::Finish);
    assert_eq!(s.phase(), Phase::Done);
    assert_eq!(s.on_event(Event::Reported { ok: false }), Action::Nothing);
    assert_eq!(s.on_event(Event::Trigger), Action::Nothing);
    assert_eq!(s.phase(), Phase::Done);
}

#[test]
fn session_fails_on_the_first_failure() {
    let mut s = Session::new();
    s.on_event(Event::Accepted);
    s.on_event(Event::Accepted);
    s.on_event(Event::Trigger);
    s.on_event(Event::Spawned);
    s.on_event(Event::Spawned);
    assert_eq!(s.on_event(Event::Reported { ok: true }), Action::AwaitReports);
    assert_eq!(s.on_event(Event::Reported { ok: false }), Action::Abort);
    assert_eq!(s.phase(), Phase::Failed);
    assert_eq!(s.on_event(Event::Reported { ok: true }), Action::Nothing);
    assert_eq!(s.phase(), Phase::Failed);
}

#[test]
fn session_without_connections_finishes_on_trigger() {
    let mut s = Session::new();
    assert_eq!(s.on_event(Event::Trigger), Action::Finish);
    assert_eq!(s.phase(), Phase::Done);
    assert_eq!(s.accepted(), 0);
}

use linear_motor::address::{
    ConfigField, Container, ContainerGetter, ContainerSetter, UpdateField, Value,
};
use linear_motor::arbiter::{
    route, Arbiter, ArbiterError, ArbiterReq, Awaited, Resolution, Route,
};
use linear_motor::comms::{frame_command, read_report, ControllerComms, Inbox};
use linear_motor::common::{to_controller_update, DeviceToHost, HostToDevice, ScopePacket};
use linear_motor::config::Config;
use linear_motor::encoder::EncoderState;
use linear_motor::fixed::{Fixed, ONE_RAW};
use linear_motor::scope_interface::{ScopeInterface, SyncError};
use linear_motor::state_machine::{Controller, ControllerUpdate};
use linear_motor::transforms::{PhaseCurrents, Rotation};

const A: ContainerGetter = ContainerGetter::Adc(0);
const B: ContainerGetter = ContainerGetter::Adc(1);
const C: ContainerGetter = ContainerGetter::Adc(2);

fn w(x: f64) -> Fixed {
    Fixed::from_raw((x * ONE_RAW as f64).round() as i64)
}

/// The drive as far as the probes go: it carries out each command and
/// confirms it.
fn carry_out(probes: &mut Vec<ContainerGetter>, command: HostToDevice) -> DeviceToHost {
    match command {
        HostToDevice::AddProbe(g) => {
            if probes.len() < 16 {
                probes.push(g);
            }
            DeviceToHost::ProbeAdded
        }
        HostToDevice::RemoveProbe(i) => {
            if (i as usize) < probes.len() {
                probes.swap_remove(i as usize);
            }
            DeviceToHost::ProbeRemoved
        }
        HostToDevice::ClearProbes => {
            probes.clear();
            DeviceToHost::ProbeCleared
        }
        _ => panic!("not a change of the probes"),
    }
}

fn started() -> ScopeInterface {
    let (mut scope, first) = ScopeInterface::new();
    assert_eq!(first, HostToDevice::ClearProbes);
    assert_eq!(scope.pending_len(), 1);
    assert_eq!(scope.try_recv(&DeviceToHost::ProbeCleared).map(|s| s.is_none()), Ok(true));
    assert_eq!(scope.pending_len(), 0);
    scope
}

#[test]
fn a_probe_is_added_at_once_and_mirrored_on_confirmation() {
    let mut scope = started();
    assert_eq!(scope.req_set(&[A]), vec![HostToDevice::AddProbe(A)]);
    assert_eq!(scope.current_requests(), vec![A]);
    // The mirror changes only on confirmation.
    assert!(scope.synced_probes().is_empty());
    assert_eq!(scope.pending_len(), 1);
    // Asking again for what is wanted sends nothing.
    assert!(scope.req_set(&[A]).is_empty());
    assert!(scope.req_set(&[A, A]).is_empty());
    assert!(scope.try_recv(&DeviceToHost::ProbeAdded).is_ok());
    assert_eq!(scope.synced_probes(), vec![A]);
    assert_eq!(scope.pending_len(), 0);
}

#[test]
fn a_removal_waits_for_the_confirmation_of_the_addition() {
    let mut scope = started();
    assert_eq!(scope.req_set(&[A]), vec![HostToDevice::AddProbe(A)]);
    // The probe is wanted no longer before its addition is confirmed:
    // nothing is sent, and the probe stays wanted.
    assert!(scope.req_set(&[]).is_empty());
    assert_eq!(scope.current_requests(), vec![A]);
    assert!(scope.req_set(&[]).is_empty());
    assert!(scope.try_recv(&DeviceToHost::ProbeAdded).is_ok());
    // Now the removal is owed, and a later call sends it.
    assert_eq!(scope.req_set(&[]), vec![HostToDevice::RemoveProbe(0)]);
    assert!(scope.current_requests().is_empty());
    assert_eq!(scope.synced_probes(), vec![A]);
    assert!(scope.try_recv(&DeviceToHost::ProbeRemoved).is_ok());
    assert!(scope.synced_probes().is_empty());
}

#[test]
fn removals_go_by_the_place_in_the_list_the_drive_will_hold() {
    let mut scope = started();
    let mut drive = Vec::new();
    for c in scope.req_set(&[A, B, C]) {
        let reply = carry_out(&mut drive, c);
        assert!(scope.try_recv(&reply).is_ok());
    }
    assert_eq!(scope.synced_probes(), vec![A, B, C]);
    // Both removals are sent before either is confirmed. Removing A moves
    // C to place zero, so C is removed from there.
    let sent = scope.req_set(&[B]);
    assert_eq!(sent, vec![HostToDevice::RemoveProbe(0), HostToDevice::RemoveProbe(0)]);
    assert_eq!(scope.current_requests(), vec![B]);
    for c in sent {
        let reply = carry_out(&mut drive, c);
        assert!(scope.try_recv(&reply).is_ok());
        assert_eq!(scope.synced_probes(), drive);
    }
    assert_eq!(drive, vec![B]);
}

#[test]
fn the_mirror_follows_the_drive_through_any_interleaving() {
    let mut scope = started();
    let mut drive: Vec<ContainerGetter> = Vec::new();
    let mut on_the_way: std::collections::VecDeque<HostToDevice> = Default::default();
    let mut confirmations: std::collections::VecDeque<DeviceToHost> = Default::default();
    let mut seed = 12345u32;
    let mut next = move || {
        seed = seed.wrapping_mul(1664525).wrapping_add(1013904223);
        (seed >> 16) as usize
    };
    for _ in 0..5000 {
        match next() % 3 {
            0 => {
                let mut wanted = Vec::new();
                for i in 0..20u8 {
                    if next() % 3 == 0 {
                        wanted.push(ContainerGetter::Adc(i));
                    }
                }
                for c in scope.req_set(&wanted) {
                    // No probe is removed before its addition is confirmed.
                    if let HostToDevice::RemoveProbe(_) = c {
                        assert!(!scope.synced_probes().is_empty());
                    }
                    on_the_way.push_back(c);
                }
            }
            1 => {
                if let Some(c) = on_the_way.pop_front() {
                    confirmations.push_back(carry_out(&mut drive, c));
                }
            }
            _ => {
                if let Some(m) = confirmations.pop_front() {
                    assert!(scope.try_recv(&m).is_ok());
                }
            }
        }
        assert_eq!(scope.pending_len(), on_the_way.len() + confirmations.len());
        assert!(scope.synced_probes().len() <= 16);
    }
    while let Some(c) = on_the_way.pop_front() {
        confirmations.push_back(carry_out(&mut drive, c));
    }
    while let Some(m) = confirmations.pop_front() {
        assert!(scope.try_recv(&m).is_ok());
    }
    // Once nothing is on its way the mirror is the drive's list.
    assert_eq!(scope.synced_probes(), drive);
    // And once the host wants nothing and all is confirmed, the drive
    // holds nothing.
    loop {
        let sent = scope.req_set(&[]);
        if sent.is_empty() {
            break;
        }
        for c in sent {
            let reply = carry_out(&mut drive, c);
            assert!(scope.try_recv(&reply).is_ok());
        }
    }
    assert!(drive.is_empty());
    assert!(scope.synced_probes().is_empty());
}

#[test]
fn a_confirmation_that_is_not_awaited_is_an_error() {
    let mut scope = started();
    assert_eq!(scope.try_recv(&DeviceToHost::ProbeAdded).err(), Some(SyncError::Unconfirmed));
    scope.req_set(&[A]);
    assert_eq!(scope.try_recv(&DeviceToHost::ProbeRemoved).err(), Some(SyncError::Unconfirmed));
    assert_eq!(scope.try_recv(&DeviceToHost::ProbeCleared).err(), Some(SyncError::Unconfirmed));
    assert_eq!(scope.pending_len(), 1);
    assert!(scope.synced_probes().is_empty());
    assert!(scope.try_recv(&DeviceToHost::ProbeAdded).is_ok());
}

#[test]
fn a_reply_is_not_for_the_view_of_the_probes() {
    let mut scope = started();
    assert_eq!(
        scope.try_recv(&DeviceToHost::SetterReply(Ok(()))).err(),
        Some(SyncError::Misrouted)
    );
    assert_eq!(
        scope.try_recv(&DeviceToHost::GetterReply(Err(()))).err(),
        Some(SyncError::Misrouted)
    );
}

#[test]
fn messages_are_told_apart() {
    assert_eq!(route(&DeviceToHost::ProbeAdded), Route::Scope);
    assert_eq!(route(&DeviceToHost::ProbeRemoved), Route::Scope);
    assert_eq!(route(&DeviceToHost::ProbeCleared), Route::Scope);
    assert_eq!(route(&DeviceToHost::SetterReply(Ok(()))), Route::Reply);
    assert_eq!(route(&DeviceToHost::GetterReply(Err(()))), Route::Reply);
}

#[test]
fn one_request_at_a_time() {
    let mut arbiter = Arbiter::start();
    assert_eq!(arbiter.awaiting, Awaited::Nothing);
    let get = ArbiterReq::Getter(A);
    assert_eq!(arbiter.begin(get), Ok(HostToDevice::Getter(A)));
    assert_eq!(arbiter.awaiting, Awaited::Value);
    // While the value is awaited nothing else is let through.
    assert_eq!(arbiter.begin(get), Err(ArbiterError::Busy));
    assert_eq!(
        arbiter.begin(ArbiterReq::Other(HostToDevice::ClearProbes)),
        Err(ArbiterError::Busy)
    );
    // The outcome of a write does not answer a read.
    assert!(matches!(
        arbiter.resolve(&DeviceToHost::SetterReply(Ok(()))),
        Err(ArbiterError::Unexpected)
    ));
    assert_eq!(arbiter.awaiting, Awaited::Value);
    assert!(matches!(
        arbiter.resolve(&DeviceToHost::GetterReply(Ok(Value::U16(7)))),
        Ok(Resolution::Value(Ok(Value::U16(7))))
    ));
    assert_eq!(arbiter.awaiting, Awaited::Nothing);
    let set = ContainerSetter {
        address: ContainerGetter::Config(ConfigField::Uvlo),
        value: Value::Real(w(9.0)),
    };
    assert_eq!(arbiter.begin(ArbiterReq::Setter(set)), Ok(HostToDevice::Setter(set)));
    assert!(matches!(
        arbiter.resolve(&DeviceToHost::SetterReply(Err(()))),
        Ok(Resolution::Outcome(Err(())))
    ));
    // Nothing is awaited: an answer is unexpected.
    assert!(matches!(
        arbiter.resolve(&DeviceToHost::GetterReply(Err(()))),
        Err(ArbiterError::Unexpected)
    ));
}

#[test]
fn commands_that_are_not_answered_do_not_block() {
    let mut arbiter = Arbiter::start();
    for c in [
        HostToDevice::AddProbe(A),
        HostToDevice::RemoveProbe(0),
        HostToDevice::ClearProbes,
        HostToDevice::ProbeInterval(2),
    ] {
        let request = ArbiterReq::other(c).unwrap();
        assert_eq!(arbiter.begin(request), Ok(c));
        assert_eq!(arbiter.awaiting, Awaited::Nothing);
    }
    // A read or a write cannot be passed off as one of them.
    assert_eq!(ArbiterReq::other(HostToDevice::Getter(A)), None);
    assert_eq!(
        arbiter.begin(ArbiterReq::Other(HostToDevice::Getter(A))),
        Err(ArbiterError::Unsound)
    );
    assert_eq!(arbiter.awaiting, Awaited::Nothing);
}

#[test]
fn a_request_that_is_given_up_frees_the_way() {
    let mut arbiter = Arbiter::start();
    assert!(arbiter.begin(ArbiterReq::Getter(A)).is_ok());
    arbiter.give_up();
    assert_eq!(arbiter.awaiting, Awaited::Nothing);
    assert!(arbiter.begin(ArbiterReq::Getter(B)).is_ok());
}

#[test]
fn samples_are_read_against_the_mirror() {
    let mut scope = started();
    let config = Config::new();
    let controller = Controller::new(&config);
    let adc = [500u16; 16];
    let pwm = [0u16; 3];
    let update = ControllerUpdate {
        phase_currents: PhaseCurrents { u: w(1.0), v: w(2.0), w: w(3.0) },
        bus_voltage: w(20.0),
        position: None,
    };
    let encoder = EncoderState::new();
    let x = Container {
        adc: &adc,
        pwm: &pwm,
        controller: &controller,
        update: &update,
        encoder: &encoder,
        config: &config,
    };
    let v = ContainerGetter::Update(UpdateField::PhaseCurrentV);
    scope.req_set(&[A, v]);
    assert!(scope.try_recv(&DeviceToHost::ProbeAdded).is_ok());
    // The drive holds one probe so far; the host wants two already, but
    // reads the sample against the one that is confirmed.
    let packet = ScopePacket::new(9, &x, &[A]);
    let sample = scope.try_recv(&DeviceToHost::Sample(packet)).unwrap().unwrap();
    assert_eq!(sample.id, 9);
    assert_eq!(sample.values, vec![(A, Value::U16(500))]);
    assert!(scope.try_recv(&DeviceToHost::ProbeAdded).is_ok());
    let packet = ScopePacket::new(10, &x, &[A, v]);
    let sample = scope.try_recv(&DeviceToHost::Sample(packet)).unwrap().unwrap();
    assert_eq!(sample.values, vec![(A, Value::U16(500)), (v, Value::Real(w(2.0)))]);
}

#[test]
fn a_probe_and_a_read_agree_end_to_end() {
    // The drive at rest at a bus voltage of 20 V.
    let mut config = Config::new();
    let mut controller = Controller::new(&config);
    let encoder = EncoderState::new();
    let mut adc = [0u16; 16];
    adc[9] = 2048;
    adc[10] = 2060;
    adc[11] = 2040;
    adc[12] = 2044;
    adc[13] = 2256;
    let mut comms = ControllerComms::new();
    let mut device_inbox = Inbox::new(128);
    let mut host_inbox = Inbox::new(1024);
    let (mut scope, first) = ScopeInterface::new();
    let mut arbiter = Arbiter::start();
    let mut queue: std::collections::VecDeque<HostToDevice> = Default::default();
    let mut decoded = None;
    let mut answer = None;
    let mut last_command = None;

    let u = ContainerGetter::Update(UpdateField::PhaseCurrentU);
    let mut to_device = frame_command(&first);
    for c in scope.req_set(&[u]) {
        to_device.extend(frame_command(&arbiter.begin(ArbiterReq::other(c).unwrap()).unwrap()));
    }
    to_device.extend(frame_command(&arbiter.begin(ArbiterReq::Getter(u)).unwrap()));

    for tick in 0..6 {
        if tick == 4 {
            // The bus voltage drops below the threshold.
            adc[13] = 1000;
        }
        queue.extend(device_inbox.receive(&to_device));
        to_device.clear();
        let update = to_controller_update(&adc, None, &config);
        let angle = controller.angle(&update, &config);
        let (s, c) = libm::sincos(angle.raw as f64 / ONE_RAW as f64);
        let command = controller.update(&update, &config, Rotation { sin: w(s), cos: w(c) });
        last_command = Some(command);
        let pwm = command.to_array();
        let out = comms.tick(
            queue.pop_front(),
            &adc,
            &pwm,
            &mut controller,
            &update,
            &encoder,
            &mut config,
        );
        let mut to_host = Vec::new();
        to_host.extend(out.reply.unwrap_or_default());
        to_host.extend(out.sample.unwrap_or_default());
        for report in host_inbox.receive_reports(&to_host) {
            match route(&report) {
                Route::Scope => {
                    if let Some(sample) = scope.try_recv(&report).unwrap() {
                        if let Some((_, v)) = sample.values.first() {
                            decoded = Some(*v);
                        }
                    }
                }
                Route::Reply => answer = Some(arbiter.resolve(&report).unwrap()),
            }
        }
        if tick < 4 {
            assert!(update.bus_voltage.raw > config.uvlo.raw);
        } else {
            // The very next command leaves the drive off.
            assert!(!command.driver_enable);
        }
    }
    let expected = to_controller_update(&adc, None, &config).phase_currents.u;
    assert_eq!(decoded, Some(Value::Real(expected)));
    assert!(matches!(answer, Some(Resolution::Value(Ok(v))) if Some(v) == decoded));
    assert_eq!(scope.synced_probes(), vec![u]);
    assert_eq!(scope.pending_len(), 0);
    assert!(last_command.is_some());
    let _ = read_report(&[0]);
}

use linear_motor::address::{
    CalField, ConfigField, Container, ContainerGetter, ContainerSetter, ControllerField,
    EncoderField, FocField, Kind, UpdateField, Value,
};
use linear_motor::codec::{dehydrate, hydrate, put_getter, take_getter};
use linear_motor::comms::{
    frame_command, frame_report, read_command, read_report, split_frames, ControllerComms, Inbox,
    USBCommunicator,
};
use linear_motor::common::{DeviceToHost, HostToDevice, ScopePacket};
use linear_motor::config::Config;
use linear_motor::encoder::EncoderState;
use linear_motor::fixed::{Fixed, ONE_RAW};
use linear_motor::state_machine::{Controller, ControllerUpdate};
use linear_motor::transforms::PhaseCurrents;
use linear_motor::wire::is_well_formed;

fn r(x: f64) -> Fixed {
    Fixed::from_raw((x * ONE_RAW as f64).round() as i64)
}

struct Bench {
    adc: [u16; 16],
    pwm: [u16; 3],
    controller: Controller,
    update: ControllerUpdate,
    encoder: EncoderState,
    config: Config,
}

fn bench() -> Bench {
    let config = Config::new();
    let mut adc = [0u16; 16];
    for (i, a) in adc.iter_mut().enumerate() {
        *a = 1000 + i as u16;
    }
    Bench {
        adc,
        pwm: [31, 32, 33],
        controller: Controller::new(&config),
        update: ControllerUpdate {
            phase_currents: PhaseCurrents { u: r(1.5), v: r(-2.5), w: r(1.0) },
            bus_voltage: r(20.0),
            position: None,
        },
        encoder: EncoderState::new(),
        config,
    }
}

fn view(b: &Bench) -> Container<'_> {
    Container {
        adc: &b.adc,
        pwm: &b.pwm,
        controller: &b.controller,
        update: &b.update,
        encoder: &b.encoder,
        config: &b.config,
    }
}

fn all_getters() -> Vec<ContainerGetter> {
    let mut out = vec![
        ContainerGetter::Adc(0),
        ContainerGetter::Adc(255),
        ContainerGetter::Pwm(2),
        ContainerGetter::Controller(ControllerField::Residual(1)),
        ContainerGetter::Encoder(EncoderField::Normalized(7)),
        ContainerGetter::Encoder(EncoderField::Compensated(0)),
        ContainerGetter::Encoder(EncoderField::Unwrapped(3)),
        ContainerGetter::Encoder(EncoderField::Position),
        ContainerGetter::Encoder(EncoderField::FilteredPosition),
        ContainerGetter::Encoder(EncoderField::Velocity),
        ContainerGetter::Config(ConfigField::CompBias(5)),
        ContainerGetter::Config(ConfigField::CompMatrix(7, 6)),
    ];
    for i in 0..=255u8 {
        if let Some(f) = UpdateField::from_index(i) {
            out.push(ContainerGetter::Update(f));
        }
        if let Some(f) = CalField::from_index(i) {
            out.push(ContainerGetter::Controller(ControllerField::Cal(f)));
        }
        if let Some(f) = FocField::from_index(i) {
            out.push(ContainerGetter::Controller(ControllerField::Foc(f)));
        }
        if let Some(f) = ConfigField::scalar(i) {
            out.push(ContainerGetter::Config(f));
        }
    }
    out
}

#[test]
fn every_address_is_read_back_as_written() {
    let getters = all_getters();
    assert_eq!(getters.len(), 12 + 4 + 3 + 12 + 17);
    for g in getters {
        let mut bytes = vec![0xAA];
        put_getter(&mut bytes, g);
        let written = bytes.len() - 1;
        bytes.extend_from_slice(&[1, 2, 3]);
        assert_eq!(take_getter(&bytes[1..]), Some((g, written)));
    }
    assert_eq!(take_getter(&[]), None);
    assert_eq!(take_getter(&[0]), None);
    assert_eq!(take_getter(&[6, 0]), None);
    assert_eq!(take_getter(&[3, 4]), None);
    assert_eq!(take_getter(&[2, 2, 12]), None);
    assert_eq!(take_getter(&[5, 18, 1]), None);
    assert_eq!(take_getter(&[5, 19, 1, 1]), None);
}

#[test]
fn integers_are_written_in_the_shortest_form() {
    assert_eq!(dehydrate(Value::U16(0)), vec![0]);
    assert_eq!(dehydrate(Value::U16(250)), vec![250]);
    assert_eq!(dehydrate(Value::U16(251)), vec![251, 251, 0]);
    assert_eq!(dehydrate(Value::U16(0x1234)), vec![251, 0x34, 0x12]);
    assert_eq!(dehydrate(Value::U32(250)), vec![250]);
    assert_eq!(dehydrate(Value::U32(0xffff)), vec![251, 0xff, 0xff]);
    assert_eq!(dehydrate(Value::U32(0x1_0000)), vec![252, 0, 0, 1, 0]);
    assert_eq!(dehydrate(Value::U32(0x1234_5678)), vec![252, 0x78, 0x56, 0x34, 0x12]);
}

#[test]
fn real_numbers_are_written_by_their_raw_value() {
    // The raw value zigzags: 0, -1, 1, -2, ... become 0, 1, 2, 3, ...
    assert_eq!(dehydrate(Value::Real(Fixed::from_raw(0))), vec![0]);
    assert_eq!(dehydrate(Value::Real(Fixed::from_raw(-1))), vec![1]);
    assert_eq!(dehydrate(Value::Real(Fixed::from_raw(1))), vec![2]);
    assert_eq!(dehydrate(Value::Real(Fixed::from_raw(125))), vec![250]);
    assert_eq!(dehydrate(Value::Real(Fixed::from_raw(-126))), vec![251, 251, 0]);
    // One is 2^32, which doubles to 2^33.
    assert_eq!(dehydrate(Value::Real(Fixed::one())), vec![253, 0, 0, 0, 0, 2, 0, 0, 0]);
    assert_eq!(
        dehydrate(Value::Real(Fixed::from_raw(i64::MIN))),
        vec![253, 255, 255, 255, 255, 255, 255, 255, 255]
    );
}

#[test]
fn values_are_read_back_as_written() {
    let values = [
        Value::U16(0),
        Value::U16(250),
        Value::U16(251),
        Value::U16(u16::MAX),
        Value::U32(0),
        Value::U32(70_000),
        Value::U32(u32::MAX),
        Value::Real(Fixed::zero()),
        Value::Real(r(-1234.5678)),
        Value::Real(Fixed::from_raw(i64::MAX)),
        Value::Real(Fixed::from_raw(i64::MIN)),
    ];
    for v in values {
        let mut bytes = dehydrate(v);
        let len = bytes.len();
        bytes.extend_from_slice(&[9, 9]);
        assert_eq!(hydrate(v.kind(), &bytes), Some((v, len)));
        // A value cut short is not read.
        if len > 1 {
            assert_eq!(hydrate(v.kind(), &bytes[..len - 1]), None);
        }
    }
    assert_eq!(hydrate(Kind::U16, &[]), None);
    // A tag that is too wide for the type is refused.
    assert_eq!(hydrate(Kind::U16, &[252, 0, 0, 0, 0]), None);
    assert_eq!(hydrate(Kind::U32, &[253, 0, 0, 0, 0, 0, 0, 0, 0]), None);
    assert_eq!(hydrate(Kind::Real, &[254, 0, 0, 0, 0, 0, 0, 0, 0]), None);
    // A longer form than needed is still read.
    assert_eq!(hydrate(Kind::U16, &[251, 5, 0]), Some((Value::U16(5), 3)));
}

#[test]
fn reading_an_address() {
    let b = bench();
    let x = view(&b);
    assert_eq!(x.get(ContainerGetter::Adc(3)), Ok(Value::U16(1003)));
    assert_eq!(x.get(ContainerGetter::Adc(16)), Err(()));
    assert_eq!(x.get(ContainerGetter::Pwm(1)), Ok(Value::U16(32)));
    assert_eq!(x.get(ContainerGetter::Pwm(3)), Err(()));
    assert_eq!(x.get(ContainerGetter::Update(UpdateField::PhaseCurrentU)), Ok(Value::Real(r(1.5))));
    assert_eq!(x.get(ContainerGetter::Update(UpdateField::PhaseCurrentV)), Ok(Value::Real(r(-2.5))));
    assert_eq!(x.get(ContainerGetter::Update(UpdateField::BusVoltage)), Ok(Value::Real(r(20.0))));
    assert_eq!(
        x.get(ContainerGetter::Controller(ControllerField::Residual(2))),
        Ok(Value::Real(Fixed::zero()))
    );
    assert_eq!(x.get(ContainerGetter::Controller(ControllerField::Residual(3))), Err(()));
    assert_eq!(
        x.get(ContainerGetter::Controller(ControllerField::Cal(CalField::Wait))),
        Ok(Value::U32(0))
    );
    // Field-oriented control is not in charge yet, and the sensor still
    // calibrates.
    assert_eq!(x.get(ContainerGetter::Controller(ControllerField::Foc(FocField::QRequest))), Err(()));
    assert_eq!(x.get(ContainerGetter::Encoder(EncoderField::Position)), Err(()));
    assert_eq!(x.get(ContainerGetter::Config(ConfigField::Uvlo)), Ok(Value::Real(r(10.0))));
    assert_eq!(
        x.get(ContainerGetter::Config(ConfigField::CompMatrix(0, 1))),
        Ok(Value::Real(r(-0.8311)))
    );
    assert_eq!(x.get(ContainerGetter::Config(ConfigField::CompMatrix(8, 0))), Err(()));
    assert_eq!(x.get(ContainerGetter::Config(ConfigField::CompBias(8))), Err(()));
    for g in all_getters() {
        if let Ok(v) = x.get(g) {
            assert_eq!(v.kind(), g.kind());
        }
    }
}

#[test]
fn writing_an_address() {
    let mut b = bench();
    let setter = ContainerSetter {
        address: ContainerGetter::Config(ConfigField::Uvlo),
        value: Value::Real(r(12.0)),
    };
    assert_eq!(setter.apply(&mut b.controller, &mut b.config), Ok(()));
    assert_eq!(b.config.uvlo, r(12.0));
    assert_eq!(view(&b).get(setter.address), Ok(setter.value));
    // The wrong type, an address that cannot be written, and a phase that
    // is not the present one are refused and change nothing.
    let before = b.config;
    for setter in [
        ContainerSetter { address: ContainerGetter::Config(ConfigField::Uvlo), value: Value::U16(1) },
        ContainerSetter { address: ContainerGetter::Adc(0), value: Value::U16(1) },
        ContainerSetter {
            address: ContainerGetter::Config(ConfigField::CompBias(0)),
            value: Value::Real(r(1.0)),
        },
        ContainerSetter {
            address: ContainerGetter::Controller(ControllerField::Foc(FocField::PosSetpoint)),
            value: Value::Real(r(1.0)),
        },
        ContainerSetter {
            address: ContainerGetter::Update(UpdateField::BusVoltage),
            value: Value::Real(r(1.0)),
        },
    ] {
        assert_eq!(setter.apply(&mut b.controller, &mut b.config), Err(()));
    }
    assert_eq!(b.config.uvlo, before.uvlo);
    assert_eq!(b.config.comp_bias, before.comp_bias);
}

#[test]
fn a_sample_holds_the_values_of_the_probes_that_can_be_read() {
    let b = bench();
    let x = view(&b);
    let getters = [
        ContainerGetter::Adc(0),
        ContainerGetter::Encoder(EncoderField::Position),
        ContainerGetter::Update(UpdateField::PhaseCurrentU),
        ContainerGetter::Adc(200),
        ContainerGetter::Pwm(2),
    ];
    let packet = ScopePacket::new(77, &x, &getters);
    assert_eq!(packet.id, 77);
    // Probes one and three cannot be read: their bits stay clear and they
    // take up no room.
    assert_eq!(packet.probe_valid, 0b10101);
    let mut want = dehydrate(Value::U16(1000));
    want.extend(dehydrate(Value::Real(r(1.5))));
    want.extend(dehydrate(Value::U16(33)));
    assert_eq!(packet.buf.as_slice(), &want[..]);
    assert_eq!(
        packet.rehydrate(&getters),
        vec![
            Some(Value::U16(1000)),
            None,
            Some(Value::Real(r(1.5))),
            None,
            Some(Value::U16(33)),
        ]
    );
}

#[test]
fn a_sample_leaves_out_what_the_buffer_has_no_room_for() {
    let mut b = bench();
    // Sixteen real numbers of nine bytes each are more than 128 bytes.
    b.update.phase_currents.u = Fixed::from_raw(i64::MAX);
    let g = ContainerGetter::Update(UpdateField::PhaseCurrentU);
    let getters = [g; 16];
    let x = view(&b);
    let packet = ScopePacket::new(1, &x, &getters);
    assert_eq!(packet.buf.len(), 126);
    assert_eq!(packet.probe_valid, 0b0011_1111_1111_1111);
    let values = packet.rehydrate(&getters);
    for (i, v) in values.iter().enumerate() {
        if i < 14 {
            assert_eq!(*v, Some(Value::Real(Fixed::from_raw(i64::MAX))));
        } else {
            assert_eq!(*v, None);
        }
    }
}

#[test]
fn a_sample_is_read_back_as_written() {
    let b = bench();
    let x = view(&b);
    let getters = [ContainerGetter::Adc(5), ContainerGetter::Update(UpdateField::BusVoltage)];
    let packet = ScopePacket::new(0x1234_5678, &x, &getters);
    let mut bytes = Vec::new();
    packet.encode(&mut bytes);
    // The tick in five bytes, the mask in one, the length, the buffer.
    assert_eq!(&bytes[..7], &[252, 0x78, 0x56, 0x34, 0x12, 0b11, packet.buf.len() as u8]);
    assert_eq!(&bytes[7..], packet.buf.as_slice());
    let (back, used) = ScopePacket::decode(&bytes).unwrap();
    assert_eq!(used, bytes.len());
    assert_eq!(back.id, packet.id);
    assert_eq!(back.probe_valid, packet.probe_valid);
    assert_eq!(back.buf, packet.buf);
    assert!(ScopePacket::decode(&bytes[..bytes.len() - 1]).is_none());
    // A buffer that claims more than a sample can hold is refused.
    let mut long = vec![0, 0, 129];
    long.extend_from_slice(&[0; 129]);
    assert!(ScopePacket::decode(&long).is_none());
}

fn commands() -> Vec<HostToDevice> {
    vec![
        HostToDevice::AddProbe(ContainerGetter::Update(UpdateField::PhaseCurrentU)),
        HostToDevice::AddProbe(ContainerGetter::Config(ConfigField::CompMatrix(3, 4))),
        HostToDevice::RemoveProbe(7),
        HostToDevice::ClearProbes,
        HostToDevice::ProbeInterval(0),
        HostToDevice::ProbeInterval(100_000),
        HostToDevice::Setter(ContainerSetter {
            address: ContainerGetter::Config(ConfigField::CurrLimit),
            value: Value::Real(r(-17.25)),
        }),
        HostToDevice::Setter(ContainerSetter {
            address: ContainerGetter::Adc(1),
            value: Value::U32(99),
        }),
        HostToDevice::Getter(ContainerGetter::Controller(ControllerField::Foc(FocField::Velocity))),
    ]
}

#[test]
fn commands_are_read_back_as_written() {
    for c in commands() {
        let bytes = c.encode();
        assert_eq!(HostToDevice::decode(&bytes), Some(c));
        // Nothing may be left over, and nothing may be missing.
        let mut longer = bytes.clone();
        longer.push(0);
        assert_eq!(HostToDevice::decode(&longer), None);
        assert_eq!(HostToDevice::decode(&bytes[..bytes.len() - 1]), None);
    }
    assert_eq!(HostToDevice::RemoveProbe(7).encode(), vec![1, 7]);
    assert_eq!(HostToDevice::ClearProbes.encode(), vec![2]);
    assert_eq!(HostToDevice::ProbeInterval(300).encode(), vec![3, 251, 44, 1]);
    assert_eq!(
        HostToDevice::Getter(ContainerGetter::Update(UpdateField::BusVoltage)).encode(),
        vec![5, 3, 3]
    );
    assert_eq!(HostToDevice::decode(&[]), None);
    assert_eq!(HostToDevice::decode(&[6]), None);
}

#[test]
fn reports_are_read_back_as_written() {
    let b = bench();
    let packet = ScopePacket::new(5, &view(&b), &[ContainerGetter::Adc(1)]);
    let reports = vec![
        DeviceToHost::Sample(packet),
        DeviceToHost::SetterReply(Ok(())),
        DeviceToHost::SetterReply(Err(())),
        DeviceToHost::GetterReply(Ok(Value::Real(r(3.25)))),
        DeviceToHost::GetterReply(Ok(Value::U16(9))),
        DeviceToHost::GetterReply(Err(())),
        DeviceToHost::ProbeAdded,
        DeviceToHost::ProbeRemoved,
        DeviceToHost::ProbeCleared,
    ];
    for report in &reports {
        let bytes = report.encode();
        let back = DeviceToHost::decode(&bytes).unwrap();
        assert_eq!(back.encode(), bytes);
        match (report, &back) {
            (DeviceToHost::Sample(a), DeviceToHost::Sample(b)) => {
                assert_eq!(a.id, b.id);
                assert_eq!(a.probe_valid, b.probe_valid);
                assert_eq!(a.buf, b.buf);
            }
            (DeviceToHost::SetterReply(a), DeviceToHost::SetterReply(b)) => assert_eq!(a, b),
            (DeviceToHost::GetterReply(a), DeviceToHost::GetterReply(b)) => assert_eq!(a, b),
            (DeviceToHost::ProbeAdded, DeviceToHost::ProbeAdded) => {}
            (DeviceToHost::ProbeRemoved, DeviceToHost::ProbeRemoved) => {}
            (DeviceToHost::ProbeCleared, DeviceToHost::ProbeCleared) => {}
            _ => panic!("read back as another report"),
        }
        let mut longer = bytes.clone();
        longer.push(0);
        assert!(DeviceToHost::decode(&longer).is_none());
    }
    assert_eq!(DeviceToHost::ProbeAdded.encode(), vec![3]);
    assert_eq!(DeviceToHost::SetterReply(Err(())).encode(), vec![1, 1]);
    assert!(DeviceToHost::decode(&[]).is_none());
    assert!(DeviceToHost::decode(&[9]).is_none());
}

#[test]
fn frames_carry_their_payload() {
    for c in commands() {
        let frame = frame_command(&c);
        // The payload, two bytes of checksum, one of stuffing, the closing
        // byte.
        assert_eq!(frame.len(), c.encode().len() + 4);
        assert_eq!(*frame.last().unwrap(), 0);
        assert!(frame[..frame.len() - 1].iter().all(|b| *b != 0));
        assert!(is_well_formed(&frame));
        assert_eq!(read_command(&frame), Some(c));
        // The frame is more than its payload: it is stuffed and checked.
        assert_ne!(frame, c.encode());
        // A flipped bit is caught.
        let mut bad = frame.clone();
        bad[1] ^= 0x40;
        if bad[1] != 0 {
            assert_eq!(read_command(&bad), None);
        }
    }
    let report = DeviceToHost::GetterReply(Ok(Value::Real(r(1.0))));
    let frame = frame_report(&report);
    assert!(matches!(read_report(&frame), Some(DeviceToHost::GetterReply(Ok(Value::Real(x)))) if x == r(1.0)));
    assert!(read_command(&frame).is_none());
}

#[test]
fn an_ill_formed_frame_is_refused() {
    assert!(!is_well_formed(&[]));
    assert!(!is_well_formed(&[1]));
    assert!(is_well_formed(&[0]));
    assert!(is_well_formed(&[1, 0]));
    assert!(is_well_formed(&[2, 7, 0]));
    assert!(is_well_formed(&[2, 7, 1, 3, 8, 9, 0]));
    // A run that is cut short.
    assert!(!is_well_formed(&[3, 7, 0]));
    assert!(!is_well_formed(&[5, 1, 0]));
    // A closing byte inside.
    assert!(!is_well_formed(&[2, 0, 1, 0]));
    assert!(!is_well_formed(&[0, 0]));
    for frame in [
        &[][..],
        &[1][..],
        &[0][..],
        &[1, 0][..],
        &[3, 7, 0][..],
        &[5, 1, 0][..],
        &[2, 0, 1, 0][..],
        &[0, 0][..],
        &[2, 7, 0][..],
        &[255, 1, 2, 0][..],
    ] {
        assert_eq!(read_command(frame), None);
        assert!(read_report(frame).is_none());
    }
}

#[test]
fn bytes_fall_into_frames() {
    let (frames, rest) = split_frames(&[1, 2, 0, 0, 3, 0, 4, 5]);
    assert_eq!(frames, vec![vec![1, 2, 0], vec![0], vec![3, 0]]);
    assert_eq!(rest, vec![4, 5]);
    let (frames, rest) = split_frames(&[]);
    assert!(frames.is_empty());
    assert!(rest.is_empty());
    let (frames, rest) = split_frames(&[7, 8]);
    assert!(frames.is_empty());
    assert_eq!(rest, vec![7, 8]);
}

#[test]
fn the_inbox_finds_the_commands_in_a_stream() {
    let sent = commands();
    let mut stream = Vec::new();
    for c in &sent {
        stream.extend(frame_command(c));
    }
    // Whatever the chunks, the commands come out in order.
    for size in [1, 2, 3, 5, 7, 64] {
        let mut inbox = Inbox::new(128);
        let mut got = Vec::new();
        for chunk in stream.chunks(size) {
            got.extend(inbox.receive(chunk));
        }
        assert_eq!(got, sent);
    }
}

#[test]
fn the_inbox_passes_over_what_it_cannot_read() {
    let good = HostToDevice::ClearProbes;
    let mut stream = vec![9, 9, 9, 0];
    stream.extend(frame_command(&good));
    stream.extend_from_slice(&[3, 1, 0]);
    let mut corrupt = frame_command(&HostToDevice::RemoveProbe(1));
    corrupt[2] ^= 1;
    stream.extend(corrupt);
    stream.extend(frame_command(&good));
    let mut inbox = Inbox::new(128);
    assert_eq!(inbox.receive(&stream), vec![good, good]);
}

#[test]
fn the_inbox_drops_a_remainder_that_outgrows_it() {
    let mut inbox = Inbox::new(8);
    assert!(inbox.take_frames(&[1; 8]).is_empty());
    // Eight bytes are held: the frame that ends now has nine.
    let frames = inbox.take_frames(&[0]);
    assert_eq!(frames, vec![vec![1, 1, 1, 1, 1, 1, 1, 1, 0]]);
    // Nine bytes without an end are dropped.
    assert!(inbox.take_frames(&[1; 9]).is_empty());
    assert_eq!(inbox.take_frames(&[2, 0]), vec![vec![2, 0]]);
}

#[test]
fn the_inbox_finds_the_reports_in_a_stream() {
    let mut stream = Vec::new();
    stream.extend(frame_report(&DeviceToHost::ProbeAdded));
    stream.extend(frame_report(&DeviceToHost::SetterReply(Ok(()))));
    let mut inbox = Inbox::new(1024);
    let got = inbox.receive_reports(&stream);
    assert_eq!(got.len(), 2);
    assert!(matches!(got[0], DeviceToHost::ProbeAdded));
    assert!(matches!(got[1], DeviceToHost::SetterReply(Ok(()))));
}

#[test]
fn the_link_carries_out_commands() {
    let mut b = bench();
    let mut comms = ControllerComms::new();
    let u = ContainerGetter::Update(UpdateField::PhaseCurrentU);
    let reply = comms.handle(
        HostToDevice::AddProbe(u),
        &b.adc,
        &b.pwm,
        &mut b.controller,
        &b.update,
        &b.encoder,
        &mut b.config,
    );
    assert!(matches!(reply, Some(DeviceToHost::ProbeAdded)));
    assert_eq!(comms.probe_list(), vec![u]);
    let reply = comms.handle(
        HostToDevice::Getter(u),
        &b.adc,
        &b.pwm,
        &mut b.controller,
        &b.update,
        &b.encoder,
        &mut b.config,
    );
    assert!(matches!(reply, Some(DeviceToHost::GetterReply(Ok(Value::Real(x)))) if x == r(1.5)));
    let reply = comms.handle(
        HostToDevice::Getter(ContainerGetter::Encoder(EncoderField::Velocity)),
        &b.adc,
        &b.pwm,
        &mut b.controller,
        &b.update,
        &b.encoder,
        &mut b.config,
    );
    assert!(matches!(reply, Some(DeviceToHost::GetterReply(Err(())))));
    let reply = comms.handle(
        HostToDevice::Setter(ContainerSetter {
            address: ContainerGetter::Config(ConfigField::Uvlo),
            value: Value::Real(r(11.0)),
        }),
        &b.adc,
        &b.pwm,
        &mut b.controller,
        &b.update,
        &b.encoder,
        &mut b.config,
    );
    assert!(matches!(reply, Some(DeviceToHost::SetterReply(Ok(())))));
    assert_eq!(b.config.uvlo, r(11.0));
    let reply = comms.handle(
        HostToDevice::Setter(ContainerSetter {
            address: ContainerGetter::Adc(0),
            value: Value::U16(1),
        }),
        &b.adc,
        &b.pwm,
        &mut b.controller,
        &b.update,
        &b.encoder,
        &mut b.config,
    );
    assert!(matches!(reply, Some(DeviceToHost::SetterReply(Err(())))));
    let reply = comms.handle(
        HostToDevice::ProbeInterval(4),
        &b.adc,
        &b.pwm,
        &mut b.controller,
        &b.update,
        &b.encoder,
        &mut b.config,
    );
    assert!(reply.is_none());
    let reply = comms.handle(
        HostToDevice::RemoveProbe(0),
        &b.adc,
        &b.pwm,
        &mut b.controller,
        &b.update,
        &b.encoder,
        &mut b.config,
    );
    assert!(matches!(reply, Some(DeviceToHost::ProbeRemoved)));
    assert!(comms.probe_list().is_empty());
}

#[test]
fn the_list_of_probes_is_bounded_and_removal_swaps() {
    let mut b = bench();
    let mut comms = ControllerComms::new();
    for i in 0..20u8 {
        comms.handle(
            HostToDevice::AddProbe(ContainerGetter::Adc(i)),
            &b.adc,
            &b.pwm,
            &mut b.controller,
            &b.update,
            &b.encoder,
            &mut b.config,
        );
    }
    let list = comms.probe_list();
    assert_eq!(list.len(), 16);
    assert_eq!(list[15], ContainerGetter::Adc(15));
    comms.handle(
        HostToDevice::RemoveProbe(2),
        &b.adc,
        &b.pwm,
        &mut b.controller,
        &b.update,
        &b.encoder,
        &mut b.config,
    );
    let list = comms.probe_list();
    assert_eq!(list.len(), 15);
    assert_eq!(list[2], ContainerGetter::Adc(15));
    assert_eq!(list[14], ContainerGetter::Adc(14));
    // A place beyond the end removes nothing.
    let reply = comms.handle(
        HostToDevice::RemoveProbe(15),
        &b.adc,
        &b.pwm,
        &mut b.controller,
        &b.update,
        &b.encoder,
        &mut b.config,
    );
    assert!(matches!(reply, Some(DeviceToHost::ProbeRemoved)));
    assert_eq!(comms.probe_list().len(), 15);
    comms.handle(
        HostToDevice::ClearProbes,
        &b.adc,
        &b.pwm,
        &mut b.controller,
        &b.update,
        &b.encoder,
        &mut b.config,
    );
    assert!(comms.probe_list().is_empty());
}

#[test]
fn a_tick_counts_answers_and_samples() {
    let mut b = bench();
    let mut comms = ControllerComms::new();
    let u = ContainerGetter::Update(UpdateField::PhaseCurrentU);
    let out = comms.tick(
        Some(HostToDevice::AddProbe(u)),
        &b.adc,
        &b.pwm,
        &mut b.controller,
        &b.update,
        &b.encoder,
        &mut b.config,
    );
    assert!(matches!(read_report(&out.reply.unwrap()), Some(DeviceToHost::ProbeAdded)));
    // The sample of this very tick already holds the new probe.
    match read_report(&out.sample.unwrap()) {
        Some(DeviceToHost::Sample(p)) => {
            assert_eq!(p.id, 1);
            assert_eq!(p.rehydrate(&[u]), vec![Some(Value::Real(r(1.5)))]);
        }
        _ => panic!("no sample"),
    }
    let out = comms.tick(None, &b.adc, &b.pwm, &mut b.controller, &b.update, &b.encoder, &mut b.config);
    assert!(out.reply.is_none());
    assert!(matches!(read_report(&out.sample.unwrap()), Some(DeviceToHost::Sample(p)) if p.id == 2));
    // At an interval of three, samples come on ticks three and six.
    let out = comms.tick(
        Some(HostToDevice::ProbeInterval(3)),
        &b.adc,
        &b.pwm,
        &mut b.controller,
        &b.update,
        &b.encoder,
        &mut b.config,
    );
    assert!(out.reply.is_none());
    assert!(matches!(read_report(&out.sample.unwrap()), Some(DeviceToHost::Sample(p)) if p.id == 3));
    for id in 4..=6u32 {
        let out = comms.tick(None, &b.adc, &b.pwm, &mut b.controller, &b.update, &b.encoder, &mut b.config);
        assert_eq!(out.sample.is_some(), id == 6);
    }
}

#[test]
fn the_addresses_can_be_counted_off() {
    let all = ContainerGetter::all();
    assert_eq!(all.len(), 153);
    for (n, g) in all.iter().enumerate() {
        assert_eq!(g.ordinal(), Some(n as u8));
        assert_eq!(ContainerGetter::at(n as u8), Some(*g));
    }
    assert_eq!(ContainerGetter::at(153), None);
    assert_eq!(ContainerGetter::at(255), None);
    assert_eq!(all[0], ContainerGetter::Adc(0));
    assert_eq!(all[16], ContainerGetter::Pwm(0));
    assert_eq!(all[63], ContainerGetter::Encoder(EncoderField::Velocity));
    assert_eq!(all[152], ContainerGetter::Config(ConfigField::CompMatrix(7, 7)));
    // An address with an index out of range has no place.
    assert_eq!(ContainerGetter::Adc(16).ordinal(), None);
    assert_eq!(ContainerGetter::Config(ConfigField::CompMatrix(8, 0)).ordinal(), None);
    // Every address that can be written and read back is among them.
    for g in all_getters() {
        assert_eq!(g.ordinal().is_some(), all.contains(&g));
    }
}

#[test]
fn commands_that_find_no_room_are_dropped() {
    let sent = commands();
    let mut stream = Vec::new();
    for c in &sent {
        stream.extend(frame_command(c));
    }
    let mut task = USBCommunicator::new();
    assert_eq!(task.run(&stream, 3), sent[..3].to_vec());
    assert!(task.run(&stream, 0).is_empty());
    assert_eq!(task.run(&stream, 100), sent);
    // A frame that comes in pieces is held until it is whole.
    let frame = frame_command(&HostToDevice::ClearProbes);
    assert!(task.run(&frame[..2], 4).is_empty());
    assert_eq!(task.run(&frame[2..], 4), vec![HostToDevice::ClearProbes]);
}

#[test]
fn no_frame_whatever_brings_the_reader_down() {
    let mut seed = 0x2545_f491u32;
    let mut next = move || {
        seed ^= seed << 13;
        seed ^= seed >> 17;
        seed ^= seed << 5;
        seed
    };
    let good: Vec<Vec<u8>> = commands().iter().map(frame_command).collect();
    for round in 0..200_000 {
        let mut frame: Vec<u8> = if round % 2 == 0 {
            // Noise that ends like a frame, with few distinct bytes so
            // that counts and closing bytes come up often.
            let len = (next() % 12) as usize;
            let mut noise: Vec<u8> = (0..len).map(|_| (next() % 6) as u8).collect();
            noise.push(0);
            noise
        } else {
            // A sound frame with a byte changed, dropped or added.
            let mut f = good[(next() as usize) % good.len()].clone();
            let at = (next() as usize) % f.len();
            match next() % 3 {
                0 => f[at] = (next() % 256) as u8,
                1 => {
                    f.remove(at);
                }
                _ => f.insert(at, (next() % 4) as u8),
            }
            f
        };
        if round % 7 == 0 {
            frame.pop();
        }
        let _ = read_command(&frame);
        let _ = read_report(&frame);
        let mut inbox = Inbox::new(64);
        let _ = inbox.receive(&frame);
    }
}

#[test]
fn the_largest_sample_is_framed_and_read_back() {
    let mut b = bench();
    b.update.phase_currents.u = Fixed::from_raw(i64::MIN);
    let g = ContainerGetter::Update(UpdateField::PhaseCurrentU);
    let getters = [g; 16];
    let packet = ScopePacket::new(u32::MAX, &view(&b), &getters);
    let report = DeviceToHost::Sample(packet);
    let payload = report.encode();
    assert_eq!(payload.len(), 1 + 5 + 3 + 1 + 126);
    let frame = frame_report(&report);
    assert_eq!(frame.len(), payload.len() + 4);
    assert!(is_well_formed(&frame));
    match read_report(&frame) {
        Some(DeviceToHost::Sample(p)) => {
            assert_eq!(p.id, u32::MAX);
            assert_eq!(p.probe_valid, 0b0011_1111_1111_1111);
            assert_eq!(p.rehydrate(&getters)[13], Some(Value::Real(Fixed::from_raw(i64::MIN))));
        }
        _ => panic!("no sample"),
    }
}

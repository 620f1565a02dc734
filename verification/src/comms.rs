//! The drive's end of the link: what it does with a command, what it
//! sends on a tick, and how it finds the commands in the bytes that come
//! in.

use vstd::prelude::*;
use crate::address::{Container, ContainerGetter};
use crate::codec::append;
use crate::common::{
    command_bytes,
    lemma_command_is_short,
    lemma_command_round_trip,
    lemma_report_is_short,
    lemma_report_round_trip,
    packed,
    parse_command,
    parse_report,
    report_bytes,
    DeviceToHost,
    HostToDevice,
    Report,
    ScopePacket,
    SCOPE_PROBES,
};
use crate::config::Config;
use crate::encoder::EncoderState;
use crate::probes::{apply_to_probes, copy_of, probes_after};
use crate::state_machine::{Controller, ControllerUpdate};
use crate::wire::{
    frame,
    framed,
    is_frame,
    is_well_formed,
    unframe,
    unframed,
    well_formed,
    FRAME_END,
};

verus! {

/// The number of the tick after tick `id`; the numbers wrap around.
pub open spec fn next_id(id: u32) -> u32 {
    if id == u32::MAX {
        0
    } else {
        (id + 1) as u32
    }
}

/// Whether a sample is due on tick `id` at the interval `interval`: on
/// every tick for an interval of at most one, else on the ticks that the
/// interval divides.
pub open spec fn sample_due(id: u32, interval: u32) -> bool {
    interval <= 1 || id % interval == 0
}

/// The reply to a command, given what the host can see as the command
/// arrives: a confirmation for a change of the probes, the outcome for a
/// write, the value or the failure for a read, and nothing for a change of
/// the interval.
pub open spec fn reply_to(command: HostToDevice, x: &Container) -> Option<Report> {
    match command {
        HostToDevice::AddProbe(_) => Some(Report::ProbeAdded),
        HostToDevice::RemoveProbe(_) => Some(Report::ProbeRemoved),
        HostToDevice::ClearProbes => Some(Report::ProbeCleared),
        HostToDevice::ProbeInterval(_) => None,
        HostToDevice::Setter(s) => Some(
            Report::SetterReply(
                if s.written(x.controller, x.config) is Some {
                    Ok(())
                } else {
                    Err(())
                },
            ),
        ),
        HostToDevice::Getter(g) => Some(
            Report::GetterReply(
                match x.value_at(g) {
                    Some(v) => Ok(v),
                    None => Err(()),
                },
            ),
        ),
    }
}

/// What the drive hands to the link on one tick: the frames of the reply
/// and of the sample, where there are any.
pub struct Outbound {
    pub reply: Option<Vec<u8>>,
    pub sample: Option<Vec<u8>>,
}

/// The drive's end of the link.
pub struct ControllerComms {
    sample_id: u32,
    probes: Vec<ContainerGetter>,
    interval: u32,
}

impl ControllerComms {
    #[verifier::type_invariant]
    spec fn inv(self) -> bool {
        self.probes@.len() <= SCOPE_PROBES
    }

    /// The number of the last tick.
    pub closed spec fn sample_id(&self) -> u32 {
        self.sample_id
    }

    /// The probes, in the order of their bits.
    pub closed spec fn probes(&self) -> Seq<ContainerGetter> {
        self.probes@
    }

    /// The number of ticks from one sample to the next.
    pub closed spec fn interval(&self) -> u32 {
        self.interval
    }

    /// A link with no probes that samples on every tick.
    pub fn new() -> (r: ControllerComms)
        ensures
            r.sample_id() == 0,
            r.probes() == Seq::<ContainerGetter>::empty(),
            r.interval() == 1,
    {
        ControllerComms { sample_id: 0, probes: Vec::new(), interval: 1 }
    }

    /// The probes, in the order of their bits.
    pub fn probe_list(&self) -> (r: Vec<ContainerGetter>)
        ensures
            r@ == self.probes(),
            r@.len() <= SCOPE_PROBES,
    {
        proof {
            use_type_invariant(self);
        }
        copy_of(&self.probes)
    }

    /// Carries out a command and gives the reply to send, if the command
    /// has one. A write that cannot be done, and a read that finds no
    /// value, are answered with a failure and change nothing.
    pub fn handle(
        &mut self,
        command: HostToDevice,
        adc: &[u16; 16],
        pwm: &[u16; 3],
        controller: &mut Controller,
        update: &ControllerUpdate,
        encoder: &EncoderState,
        config: &mut Config,
    ) -> (r: Option<DeviceToHost>)
        ensures
            final(self).sample_id() == old(self).sample_id(),
            final(self).probes() == probes_after(old(self).probes(), command),
            final(self).interval() == if let HostToDevice::ProbeInterval(n) = command {
                n
            } else {
                old(self).interval()
            },
            final(controller).svm == old(controller).svm,
            match command {
                HostToDevice::Setter(s) => match s.written(old(controller), old(config)) {
                    Some((vc, cfg)) => final(controller).voltage_controller == vc && *final(config)
                        == cfg,
                    None => *final(controller) == *old(controller) && *final(config) == *old(
                        config,
                    ),
                },
                _ => *final(controller) == *old(controller) && *final(config) == *old(config),
            },
            match reply_to(
                command,
                &(Container {
                    adc,
                    pwm,
                    controller: old(controller),
                    update,
                    encoder,
                    config: old(config),
                }),
            ) {
                Some(report) => r matches Some(m) && m@ == report,
                None => r is None,
            },
    {
        proof {
            use_type_invariant(&*self);
        }
        let mut probes = copy_of(&self.probes);
        apply_to_probes(&mut probes, command);
        let interval = match command {
            HostToDevice::ProbeInterval(n) => n,
            _ => self.interval,
        };
        *self = ControllerComms { sample_id: self.sample_id, probes, interval };
        match command {
            HostToDevice::AddProbe(_) => Some(DeviceToHost::ProbeAdded),
            HostToDevice::RemoveProbe(_) => Some(DeviceToHost::ProbeRemoved),
            HostToDevice::ClearProbes => Some(DeviceToHost::ProbeCleared),
            HostToDevice::ProbeInterval(_) => None,
            HostToDevice::Setter(s) => {
                match s.apply(controller, config) {
                    Ok(_) => Some(DeviceToHost::SetterReply(Ok(()))),
                    Err(_) => Some(DeviceToHost::SetterReply(Err(()))),
                }
            },
            HostToDevice::Getter(g) => {
                let x = Container { adc, pwm, controller: &*controller, update, encoder, config: &*config };
                match x.get(g) {
                    Ok(v) => Some(DeviceToHost::GetterReply(Ok(v))),
                    Err(_) => Some(DeviceToHost::GetterReply(Err(()))),
                }
            },
        }
    }

    /// The sample of the present tick, if one is due.
    pub fn sample(&self, x: &Container) -> (r: Option<DeviceToHost>)
        ensures
            if sample_due(self.sample_id(), self.interval()) {
                r matches Some(DeviceToHost::Sample(p)) && p.id == self.sample_id() && (
                    p.probe_valid,
                    p.bytes(),
                ) == packed(x, self.probes(), self.probes().len())
            } else {
                r is None
            },
    {
        proof {
            use_type_invariant(self);
        }
        if self.interval <= 1 || self.sample_id % self.interval == 0 {
            Some(DeviceToHost::Sample(ScopePacket::new(self.sample_id, x, self.probes.as_slice())))
        } else {
            None
        }
    }

    /// Runs the link for one tick: the tick is counted, the command, if
    /// there is one, is carried out, and the sample is taken of what the
    /// drive then holds. The reply and the sample are given as frames.
    pub fn tick(
        &mut self,
        command: Option<HostToDevice>,
        adc: &[u16; 16],
        pwm: &[u16; 3],
        controller: &mut Controller,
        update: &ControllerUpdate,
        encoder: &EncoderState,
        config: &mut Config,
    ) -> (r: Outbound)
        ensures
            final(self).sample_id() == next_id(old(self).sample_id()),
            final(self).probes() == match command {
                Some(c) => probes_after(old(self).probes(), c),
                None => old(self).probes(),
            },
            final(self).interval() == match command {
                Some(HostToDevice::ProbeInterval(n)) => n,
                _ => old(self).interval(),
            },
            final(controller).svm == old(controller).svm,
            match command {
                Some(HostToDevice::Setter(s)) => match s.written(old(controller), old(config)) {
                    Some((vc, cfg)) => final(controller).voltage_controller == vc && *final(config)
                        == cfg,
                    None => *final(controller) == *old(controller) && *final(config) == *old(
                        config,
                    ),
                },
                _ => *final(controller) == *old(controller) && *final(config) == *old(config),
            },
            match command {
                Some(c) => match reply_to(
                    c,
                    &(Container {
                        adc,
                        pwm,
                        controller: old(controller),
                        update,
                        encoder,
                        config: old(config),
                    }),
                ) {
                    Some(report) => r.reply matches Some(bytes) && bytes@ == framed(
                        report_bytes(report),
                    ),
                    None => r.reply is None,
                },
                None => r.reply is None,
            },
            if sample_due(final(self).sample_id(), final(self).interval()) {
                r.sample matches Some(bytes) && bytes@ == framed(
                    report_bytes(
                        Report::Sample {
                            id: final(self).sample_id(),
                            probe_valid: packed(
                                &(Container {
                                    adc,
                                    pwm,
                                    controller: final(controller),
                                    update,
                                    encoder,
                                    config: final(config),
                                }),
                                final(self).probes(),
                                final(self).probes().len(),
                            ).0,
                            bytes: packed(
                                &(Container {
                                    adc,
                                    pwm,
                                    controller: final(controller),
                                    update,
                                    encoder,
                                    config: final(config),
                                }),
                                final(self).probes(),
                                final(self).probes().len(),
                            ).1,
                        },
                    ),
                )
            } else {
                r.sample is None
            },
    {
        proof {
            use_type_invariant(&*self);
        }
        let id = if self.sample_id == u32::MAX {
            0
        } else {
            self.sample_id + 1
        };
        *self = ControllerComms { sample_id: id, probes: copy_of(&self.probes), interval: self.interval };
        let reply = match command {
            Some(c) => match self.handle(c, adc, pwm, controller, update, encoder, config) {
                Some(message) => Some(frame_report(&message)),
                None => None,
            },
            None => None,
        };
        let x = Container { adc, pwm, controller: &*controller, update, encoder, config: &*config };
        let sample = match self.sample(&x) {
            Some(message) => Some(frame_report(&message)),
            None => None,
        };
        Outbound { reply, sample }
    }
}

/// The frames one after the other.
pub open spec fn joined(frames: Seq<Seq<u8>>) -> Seq<u8>
    decreases frames.len(),
{
    if frames.len() == 0 {
        Seq::empty()
    } else {
        joined(frames.drop_last()) + frames.last()
    }
}

/// Whether `frames` and `remainder` are how `bytes` falls apart: the
/// frames are whole, they and the remainder make up the bytes, and the
/// remainder holds no closing byte.
pub open spec fn splits_into(bytes: Seq<u8>, frames: Seq<Seq<u8>>, remainder: Seq<u8>) -> bool {
    &&& joined(frames) + remainder == bytes
    &&& forall|k: int| 0 <= k < frames.len() ==> is_frame(#[trigger] frames[k])
    &&& forall|i: int| 0 <= i < remainder.len() ==> remainder[i] != FRAME_END
}

/// The view of a list of frames.
pub open spec fn frames_view(frames: Seq<Vec<u8>>) -> Seq<Seq<u8>> {
    Seq::new(frames.len(), |k: int| frames[k]@)
}

/// Cuts `buf` into the whole frames it holds and what is left after the
/// last of them.
pub fn split_frames(buf: &[u8]) -> (r: (Vec<Vec<u8>>, Vec<u8>))
    ensures
        splits_into(buf@, frames_view(r.0@), r.1@),
{
    let mut frames: Vec<Vec<u8>> = Vec::new();
    let mut current: Vec<u8> = Vec::new();
    let mut i: usize = 0;
    assert(joined(frames_view(frames@)) + current@ =~= buf@.subrange(0, 0));
    while i < buf.len()
        invariant
            i <= buf@.len(),
            splits_into(buf@.subrange(0, i as int), frames_view(frames@), current@),
        decreases buf@.len() - i,
    {
        let ghost before_frames = frames_view(frames@);
        let ghost before_current = current@;
        let b = buf[i];
        current.push(b);
        if b == FRAME_END {
            frames.push(current);
            current = Vec::new();
            proof {
                let after = frames_view(frames@);
                assert(after.drop_last() =~= before_frames);
                assert(after.last() == before_current.push(b));
                assert(joined(after) + Seq::<u8>::empty() =~= buf@.subrange(0, i + 1)) by {
                    assert(joined(before_frames) + before_current == buf@.subrange(0, i as int));
                    assert(buf@.subrange(0, i + 1) =~= buf@.subrange(0, i as int).push(b));
                }
                assert forall|k: int| 0 <= k < after.len() implies is_frame(#[trigger] after[k]) by {
                    if k < before_frames.len() {
                        assert(after[k] == before_frames[k]);
                    }
                }
            }
        } else {
            proof {
                assert(frames_view(frames@) =~= before_frames);
                assert(joined(before_frames) + current@ =~= buf@.subrange(0, i + 1)) by {
                    assert(joined(before_frames) + before_current == buf@.subrange(0, i as int));
                    assert(buf@.subrange(0, i + 1) =~= buf@.subrange(0, i as int).push(b));
                }
            }
        }
        i += 1;
    }
    assert(buf@.subrange(0, buf@.len() as int) =~= buf@);
    (frames, current)
}

/// The command that a frame carries, if the frame is well formed, its
/// checksum is right and its payload stands for a command.
pub open spec fn command_in(frame: Seq<u8>) -> Option<HostToDevice> {
    if well_formed(frame) {
        match unframed(frame) {
            Some(payload) => parse_command(payload),
            None => None,
        }
    } else {
        None
    }
}

/// The report that a frame carries, if the frame is well formed, its
/// checksum is right and its payload stands for a report.
pub open spec fn report_in(frame: Seq<u8>) -> Option<Report> {
    if well_formed(frame) {
        match unframed(frame) {
            Some(payload) => parse_report(payload),
            None => None,
        }
    } else {
        None
    }
}

/// The commands that a run of frames carries, in order; a frame that
/// carries none is passed over.
pub open spec fn commands_in(frames: Seq<Seq<u8>>) -> Seq<HostToDevice>
    decreases frames.len(),
{
    if frames.len() == 0 {
        Seq::empty()
    } else {
        match command_in(frames.last()) {
            Some(c) => commands_in(frames.drop_last()).push(c),
            None => commands_in(frames.drop_last()),
        }
    }
}

/// Reads the command that a frame carries.
pub fn read_command(frame: &[u8]) -> (r: Option<HostToDevice>)
    ensures
        r == command_in(frame@),
{
    if !is_well_formed(frame) {
        return None;
    }
    match unframe(frame) {
        Some(payload) => HostToDevice::decode(payload.as_slice()),
        None => None,
    }
}

/// Reads the report that a frame carries.
pub fn read_report(frame: &[u8]) -> (r: Option<DeviceToHost>)
    ensures
        match report_in(frame@) {
            Some(report) => r matches Some(m) && m@ == report,
            None => r is None,
        },
{
    if !is_well_formed(frame) {
        return None;
    }
    match unframe(frame) {
        Some(payload) => DeviceToHost::decode(payload.as_slice()),
        None => None,
    }
}

/// The frame that carries a command. What `read_command` reads from it
/// is the command.
pub fn frame_command(command: &HostToDevice) -> (r: Vec<u8>)
    ensures
        r@ == framed(command_bytes(*command)),
        well_formed(r@),
        command_in(r@) == Some(*command),
{
    let bytes = command.encode();
    proof {
        lemma_command_round_trip(*command);
        lemma_command_is_short(*command);
    }
    frame(bytes.as_slice())
}

/// The frame that carries a report. What `read_report` reads from it is
/// the report.
pub fn frame_report(report: &DeviceToHost) -> (r: Vec<u8>)
    ensures
        r@ == framed(report_bytes(report@)),
        well_formed(r@),
        report_in(r@) == Some(report@),
{
    let bytes = report.encode();
    proof {
        lemma_report_is_short(report@);
        lemma_report_round_trip(report@);
        lemma_report_is_short(report@);
    }
    frame(bytes.as_slice())
}

/// The reports that a run of frames carries, in order; a frame that
/// carries none is passed over.
pub open spec fn reports_in(frames: Seq<Seq<u8>>) -> Seq<Report>
    decreases frames.len(),
{
    if frames.len() == 0 {
        Seq::empty()
    } else {
        match report_in(frames.last()) {
            Some(r) => reports_in(frames.drop_last()).push(r),
            None => reports_in(frames.drop_last()),
        }
    }
}

/// What the messages of a list stand for.
pub open spec fn reports_view(messages: Seq<DeviceToHost>) -> Seq<Report> {
    Seq::new(messages.len(), |k: int| messages[k]@)
}

/// Reads the commands that a run of frames carries.
pub fn read_commands(frames: &Vec<Vec<u8>>) -> (r: Vec<HostToDevice>)
    ensures
        r@ == commands_in(frames_view(frames@)),
{
    let mut commands: Vec<HostToDevice> = Vec::new();
    let mut k: usize = 0;
    while k < frames.len()
        invariant
            k <= frames@.len(),
            commands@ == commands_in(frames_view(frames@).subrange(0, k as int)),
        decreases frames@.len() - k,
    {
        proof {
            let upto = frames_view(frames@).subrange(0, k + 1);
            assert(upto.drop_last() =~= frames_view(frames@).subrange(0, k as int));
            assert(upto.last() == frames@[k as int]@);
        }
        match read_command(frames[k].as_slice()) {
            Some(c) => commands.push(c),
            None => {},
        }
        k += 1;
    }
    assert(frames_view(frames@).subrange(0, frames@.len() as int) =~= frames_view(frames@));
    commands
}

/// Reads the reports that a run of frames carries.
pub fn read_reports(frames: &Vec<Vec<u8>>) -> (r: Vec<DeviceToHost>)
    ensures
        reports_view(r@) == reports_in(frames_view(frames@)),
{
    let mut reports: Vec<DeviceToHost> = Vec::new();
    let mut k: usize = 0;
    while k < frames.len()
        invariant
            k <= frames@.len(),
            reports_view(reports@) == reports_in(frames_view(frames@).subrange(0, k as int)),
        decreases frames@.len() - k,
    {
        let ghost before = reports_view(reports@);
        proof {
            let upto = frames_view(frames@).subrange(0, k + 1);
            assert(upto.drop_last() =~= frames_view(frames@).subrange(0, k as int));
            assert(upto.last() == frames@[k as int]@);
        }
        match read_report(frames[k].as_slice()) {
            Some(m) => {
                reports.push(m);
                assert(reports_view(reports@) =~= before.push(m@));
            },
            None => {},
        }
        k += 1;
    }
    assert(frames_view(frames@).subrange(0, frames@.len() as int) =~= frames_view(frames@));
    reports
}

/// Gathers the bytes that come in until they make up whole frames.
pub struct Inbox {
    buf: Vec<u8>,
    capacity: usize,
}

impl Inbox {
    /// The bytes of a frame that has not ended yet.
    pub closed spec fn held(&self) -> Seq<u8> {
        self.buf@
    }

    /// The most bytes that are held from one time to the next.
    pub closed spec fn capacity(&self) -> usize {
        self.capacity
    }

    /// What is held of a remainder: the remainder, unless it has grown
    /// beyond the capacity, in which case it is dropped.
    pub open spec fn kept_of(remainder: Seq<u8>, capacity: usize) -> Seq<u8> {
        if remainder.len() <= capacity {
            remainder
        } else {
            Seq::empty()
        }
    }

    /// An inbox that holds nothing.
    pub fn new(capacity: usize) -> (r: Inbox)
        ensures
            r.held() == Seq::<u8>::empty(),
            r.capacity() == capacity,
    {
        Inbox { buf: Vec::new(), capacity }
    }

    /// Takes in the bytes `chunk` and gives the frames that have become
    /// whole, in order. What is left after the last of them is held for
    /// the next time.
    pub fn take_frames(&mut self, chunk: &[u8]) -> (r: Vec<Vec<u8>>)
        ensures
            final(self).capacity() == old(self).capacity(),
            exists|remainder: Seq<u8>|
                {
                    &&& #[trigger] splits_into(
                        old(self).held() + chunk@,
                        frames_view(r@),
                        remainder,
                    )
                    &&& final(self).held() == Self::kept_of(remainder, old(self).capacity())
                },
    {
        append(&mut self.buf, chunk);
        let (frames, remainder) = split_frames(self.buf.as_slice());
        let ghost left = remainder@;
        assert(splits_into(old(self).held() + chunk@, frames_view(frames@), left));
        if remainder.len() <= self.capacity {
            self.buf = remainder;
        } else {
            self.buf = Vec::new();
        }
        assert(self.held() == Self::kept_of(left, old(self).capacity()));
        frames
    }

    /// Takes in the bytes `chunk` and gives the commands of the frames
    /// that have become whole. A frame that is not well formed, whose
    /// checksum is wrong, or whose payload stands for no command, is
    /// passed over.
    pub fn receive(&mut self, chunk: &[u8]) -> (r: Vec<HostToDevice>)
        ensures
            final(self).capacity() == old(self).capacity(),
            exists|frames: Seq<Seq<u8>>, remainder: Seq<u8>|
                {
                    &&& #[trigger] splits_into(old(self).held() + chunk@, frames, remainder)
                    &&& r@ == commands_in(frames)
                    &&& final(self).held() == Self::kept_of(remainder, old(self).capacity())
                },
    {
        let frames = self.take_frames(chunk);
        read_commands(&frames)
    }

    /// Takes in the bytes `chunk` and gives the reports of the frames that
    /// have become whole. A frame that is not well formed, whose checksum
    /// is wrong, or whose payload stands for no report, is passed over.
    pub fn receive_reports(&mut self, chunk: &[u8]) -> (r: Vec<DeviceToHost>)
        ensures
            final(self).capacity() == old(self).capacity(),
            exists|frames: Seq<Seq<u8>>, remainder: Seq<u8>|
                {
                    &&& #[trigger] splits_into(old(self).held() + chunk@, frames, remainder)
                    &&& reports_view(r@) == reports_in(frames)
                    &&& final(self).held() == Self::kept_of(remainder, old(self).capacity())
                },
    {
        let frames = self.take_frames(chunk);
        read_reports(&frames)
    }
}

/// The first `room` of `commands`, or all of them if they are fewer.
pub open spec fn admitted(commands: Seq<HostToDevice>, room: usize) -> Seq<HostToDevice> {
    if commands.len() <= room {
        commands
    } else {
        commands.subrange(0, room as int)
    }
}

/// The task that takes the bytes of the serial port in: it finds the
/// commands in them and hands on as many as the queue to the control
/// loop has room for.
pub struct USBCommunicator {
    inbox: Inbox,
}

impl USBCommunicator {
    /// The bytes of a frame that has not ended yet.
    pub closed spec fn held(&self) -> Seq<u8> {
        self.inbox.held()
    }

    /// The most bytes that are held from one time to the next.
    pub closed spec fn capacity(&self) -> usize {
        self.inbox.capacity()
    }

    /// A task that holds nothing, and holds back at most what the buffer of
    /// a sample can.
    pub fn new() -> (r: USBCommunicator)
        ensures
            r.held() == Seq::<u8>::empty(),
            r.capacity() == crate::wire::BUFFER_CAPACITY,
    {
        USBCommunicator { inbox: Inbox::new(crate::wire::BUFFER_CAPACITY) }
    }

    /// Takes in the bytes `chunk` that the port has read and gives the
    /// commands to put in the queue, which has room for `room` more. The
    /// commands that find no room are dropped.
    pub fn run(&mut self, chunk: &[u8], room: usize) -> (r: Vec<HostToDevice>)
        ensures
            final(self).capacity() == old(self).capacity(),
            exists|frames: Seq<Seq<u8>>, remainder: Seq<u8>|
                {
                    &&& #[trigger] splits_into(old(self).held() + chunk@, frames, remainder)
                    &&& r@ == admitted(commands_in(frames), room)
                    &&& final(self).held() == Inbox::kept_of(remainder, old(self).capacity())
                },
    {
        let mut commands = self.inbox.receive(chunk);
        let ghost all = commands@;
        if commands.len() > room {
            commands.truncate(room);
        }
        proof {
            let (frames, remainder) = choose|frames: Seq<Seq<u8>>, remainder: Seq<u8>|
                {
                    &&& #[trigger] splits_into(old(self).held() + chunk@, frames, remainder)
                    &&& all == commands_in(frames)
                    &&& self.inbox.held() == Inbox::kept_of(remainder, old(self).capacity())
                };
            assert(splits_into(old(self).held() + chunk@, frames, remainder));
            assert(commands@ == admitted(commands_in(frames), room));
        }
        commands
    }
}

/// One whole frame falls apart into itself and nothing else.
pub proof fn lemma_frame_splits_into_itself(
    frame: Seq<u8>,
    frames: Seq<Seq<u8>>,
    remainder: Seq<u8>,
)
    requires
        is_frame(frame),
        splits_into(frame, frames, remainder),
    ensures
        frames == seq![frame],
        remainder == Seq::<u8>::empty(),
{
    let one = seq![frame];
    assert(one.drop_last() =~= Seq::<Seq<u8>>::empty());
    assert(joined(one.drop_last()) =~= Seq::<u8>::empty());
    assert(joined(one) + Seq::<u8>::empty() =~= frame);
    assert(splits_into(frame, one, Seq::empty()));
    lemma_split_is_unique(frame, frames, remainder, one, Seq::empty());
}

/// The bytes fall apart in one way only.
pub proof fn lemma_split_is_unique(
    bytes: Seq<u8>,
    frames: Seq<Seq<u8>>,
    remainder: Seq<u8>,
    frames2: Seq<Seq<u8>>,
    remainder2: Seq<u8>,
)
    requires
        splits_into(bytes, frames, remainder),
        splits_into(bytes, frames2, remainder2),
    ensures
        frames == frames2,
        remainder == remainder2,
{
    let j = joined(frames);
    let j2 = joined(frames2);
    lemma_joined_ends(frames);
    lemma_joined_ends(frames2);
    // The remainder starts after the last closing byte of the bytes.
    assert(bytes == j + remainder);
    assert(bytes == j2 + remainder2);
    assert(bytes.len() == j.len() + remainder.len());
    assert(bytes.len() == j2.len() + remainder2.len());
    if j.len() < j2.len() {
        assert((j2 + remainder2)[j2.len() - 1] == j2[j2.len() - 1]);
        assert((j + remainder)[j2.len() - 1] == remainder[j2.len() - 1 - j.len()]);
        assert(false);
    }
    if j2.len() < j.len() {
        assert((j + remainder)[j.len() - 1] == j[j.len() - 1]);
        assert((j2 + remainder2)[j.len() - 1] == remainder2[j.len() - 1 - j2.len()]);
        assert(false);
    }
    assert(remainder =~= bytes.subrange(j.len() as int, bytes.len() as int));
    assert(remainder2 =~= bytes.subrange(j2.len() as int, bytes.len() as int));
    assert(j =~= bytes.subrange(0, j.len() as int));
    assert(j2 =~= bytes.subrange(0, j2.len() as int));
    lemma_joined_is_unique(frames, frames2);
}

/// Frames that are joined end with a closing byte, if there are any.
proof fn lemma_joined_ends(frames: Seq<Seq<u8>>)
    requires
        forall|k: int| 0 <= k < frames.len() ==> is_frame(#[trigger] frames[k]),
    ensures
        frames.len() > 0 ==> joined(frames).len() > 0 && joined(frames).last() == FRAME_END,
        frames.len() == 0 ==> joined(frames).len() == 0,
        frames.len() > 0 ==> joined(frames).len() >= frames.last().len(),
{
    if frames.len() > 0 {
        assert(is_frame(frames[frames.len() - 1]));
    }
}

/// Two runs of whole frames that join to the same bytes are the same.
proof fn lemma_joined_is_unique(frames: Seq<Seq<u8>>, frames2: Seq<Seq<u8>>)
    requires
        forall|k: int| 0 <= k < frames.len() ==> is_frame(#[trigger] frames[k]),
        forall|k: int| 0 <= k < frames2.len() ==> is_frame(#[trigger] frames2[k]),
        joined(frames) == joined(frames2),
    ensures
        frames == frames2,
    decreases frames.len(),
{
    lemma_joined_ends(frames);
    lemma_joined_ends(frames2);
    if frames.len() == 0 {
        if frames2.len() > 0 {
            assert(is_frame(frames2[frames2.len() - 1]));
        }
        assert(frames =~= frames2);
    } else if frames2.len() == 0 {
        assert(is_frame(frames[frames.len() - 1]));
    } else {
        let a = frames.last();
        let b = frames2.last();
        let j = joined(frames);
        let ha = joined(frames.drop_last());
        let hb = joined(frames2.drop_last());
        assert(is_frame(a));
        assert(is_frame(b));
        assert(j == ha + a);
        assert(j == hb + b);
        lemma_joined_ends(frames.drop_last());
        lemma_joined_ends(frames2.drop_last());
        // The last frame starts after the last closing byte but one.
        assert(j.len() == ha.len() + a.len());
        assert(j.len() == hb.len() + b.len());
        if a.len() < b.len() {
            // The head of the first run ends inside the last frame of the
            // second, on a closing byte that is not its last.
            assert((ha + a)[ha.len() - 1] == ha[ha.len() - 1]);
            assert((hb + b)[ha.len() - 1] == b[ha.len() - 1 - hb.len()]);
            assert(false);
        }
        if b.len() < a.len() {
            assert((hb + b)[hb.len() - 1] == hb[hb.len() - 1]);
            assert((ha + a)[hb.len() - 1] == a[hb.len() - 1 - ha.len()]);
            assert(false);
        }
        assert(a =~= j.subrange(ha.len() as int, j.len() as int));
        assert(b =~= j.subrange(hb.len() as int, j.len() as int));
        assert(ha =~= j.subrange(0, ha.len() as int));
        assert(hb =~= j.subrange(0, hb.len() as int));
        lemma_joined_is_unique(frames.drop_last(), frames2.drop_last());
        assert(frames =~= frames.drop_last().push(a));
        assert(frames2 =~= frames2.drop_last().push(b));
    }
}

} // verus!

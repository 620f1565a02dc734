//! What the drive and its host say to each other: samples of the probed
//! values, commands, and replies.

use vstd::prelude::*;
use crate::address::{Container, ContainerGetter, ContainerSetter, Value};
use crate::codec::{
    append,
    dehydrate,
    getter_bytes,
    hydrate,
    lemma_getter_round_trip,
    lemma_setter_round_trip,
    lemma_tagged_value_round_trip,
    parse_getter,
    parse_setter,
    parse_tagged_value,
    parse_value,
    put_getter,
    put_tagged_value,
    rest,
    setter_bytes,
    tagged_value_bytes,
    tail,
    take_getter,
    take_tagged_value,
    value_bytes,
};
use crate::config::Config;
use crate::encoder::EncoderOutput;
use crate::fixed::Fixed;
use crate::state_machine::ControllerUpdate;
use crate::transforms::PhaseCurrents;
use crate::unwrap::TAU_RAW;
use crate::wire::{
    bit_set,
    bit_test,
    buffer_bytes,
    buffer_from,
    buffer_to_vec,
    lemma_parse_is_short,
    lemma_varint_round_trip,
    parse_varint,
    put_u16,
    put_u32,
    take_u16,
    take_u32,
    varint,
    BUFFER_CAPACITY,
    U16_BYTE,
    U32_BYTE,
};

verus! {

/// The most probes that a sample can hold.
pub const SCOPE_PROBES: usize = 16;

/// The mask with bit `bit` set.
pub open spec fn with_bit(mask: u16, bit: usize) -> u16 {
    mask | (1u16 << bit)
}

/// Whether bit `bit` of the mask is set.
pub open spec fn has_bit(mask: u16, bit: usize) -> bool {
    mask & (1u16 << bit) != 0
}

/// One sample: the values of the probes that could be read on one tick.
pub struct ScopePacket {
    /// The number of the tick.
    pub id: u32,
    /// Bit `i` says whether the value of probe `i` is in the buffer.
    pub probe_valid: u16,
    /// The values of the valid probes, one after the other, in the order
    /// of the probes.
    pub buf: heapless::Vec<u8, 128>,
}

/// What a sample holds of the first `upto` probes: the mask of the probes
/// whose value is in the buffer, and the buffer. The value of a probe is
/// in the buffer if it could be read and the buffer had room for it.
pub open spec fn packed(x: &Container, getters: Seq<ContainerGetter>, upto: nat) -> (u16, Seq<u8>)
    decreases upto,
{
    if upto == 0 {
        (0u16, Seq::empty())
    } else {
        let (mask, buf) = packed(x, getters, (upto - 1) as nat);
        match x.value_at(getters[upto - 1]) {
            Some(v) => if buf.len() + value_bytes(v).len() <= BUFFER_CAPACITY {
                (with_bit(mask, (upto - 1) as usize), buf + value_bytes(v))
            } else {
                (mask, buf)
            },
            None => (mask, buf),
        }
    }
}

/// What is read out of a sample for the first `upto` probes: the value of
/// each, where there is one, and the place in the buffer that has been
/// reached. A probe has a value if its bit is set and a value of its type
/// stands at the place reached.
pub open spec fn unpacked(
    mask: u16,
    buf: Seq<u8>,
    getters: Seq<ContainerGetter>,
    upto: nat,
) -> (Seq<Option<Value>>, nat)
    decreases upto,
{
    if upto == 0 {
        (Seq::empty(), 0nat)
    } else {
        let (values, offset) = unpacked(mask, buf, getters, (upto - 1) as nat);
        if has_bit(mask, (upto - 1) as usize) {
            match parse_value(getters[upto - 1].kind(), tail(buf, offset)) {
                Some((v, n)) => (values.push(Some(v)), offset + n),
                None => (values.push(None), offset),
            }
        } else {
            (values.push(None), offset)
        }
    }
}

impl ScopePacket {
    /// The bytes of the buffer.
    pub open spec fn bytes(&self) -> Seq<u8> {
        buffer_bytes(self.buf)
    }

    /// Takes a sample of the probes `getters` on tick `id`. A probe that
    /// cannot be read, or whose value the buffer has no room for, is left
    /// out and its bit stays clear.
    pub fn new(id: u32, x: &Container, getters: &[ContainerGetter]) -> (r: ScopePacket)
        requires
            getters@.len() <= SCOPE_PROBES,
        ensures
            r.id == id,
            (r.probe_valid, r.bytes()) == packed(x, getters@, getters@.len()),
    {
        let mut bytes: Vec<u8> = Vec::new();
        let mut probe_valid: u16 = 0;
        let mut idx: usize = 0;
        while idx < getters.len()
            invariant
                idx <= getters@.len() <= SCOPE_PROBES,
                bytes@.len() <= BUFFER_CAPACITY,
                (probe_valid, bytes@) == packed(x, getters@, idx as nat),
            decreases getters@.len() - idx,
        {
            match x.get(getters[idx]) {
                Ok(value) => {
                    let field = dehydrate(value);
                    if field.len() <= BUFFER_CAPACITY - bytes.len() {
                        append(&mut bytes, field.as_slice());
                        probe_valid = bit_set(probe_valid, idx);
                    }
                },
                Err(_) => {},
            }
            idx += 1;
        }
        ScopePacket { id, probe_valid, buf: buffer_from(bytes.as_slice()) }
    }

    /// Reads the values of the probes `getters` out of the sample: for each
    /// probe its value, or nothing where its bit is clear or no value of
    /// its type stands at its place.
    pub fn rehydrate(&self, getters: &[ContainerGetter]) -> (r: Vec<Option<Value>>)
        requires
            getters@.len() <= SCOPE_PROBES,
        ensures
            r@ == unpacked(self.probe_valid, self.bytes(), getters@, getters@.len()).0,
            r@.len() == getters@.len(),
    {
        let buf = buffer_to_vec(&self.buf);
        let mut ret: Vec<Option<Value>> = Vec::new();
        let mut offset: usize = 0;
        let mut idx: usize = 0;
        while idx < getters.len()
            invariant
                idx <= getters@.len() <= SCOPE_PROBES,
                buf@ == self.bytes(),
                buf@.len() <= BUFFER_CAPACITY,
                offset <= buf@.len(),
                ret@.len() == idx,
                (ret@, offset as nat) == unpacked(
                    self.probe_valid,
                    self.bytes(),
                    getters@,
                    idx as nat,
                ),
            decreases getters@.len() - idx,
        {
            let mut item: Option<Value> = None;
            if bit_test(self.probe_valid, idx) {
                proof {
                    lemma_value_is_short(getters@[idx as int].kind(), tail(buf@, offset as nat));
                }
                match hydrate(getters[idx].kind(), rest(buf.as_slice(), offset)) {
                    Some((value, field_length)) => {
                        offset += field_length;
                        item = Some(value);
                    },
                    None => {},
                }
            }
            ret.push(item);
            idx += 1;
        }
        ret
    }
}

/// A value takes up at least one byte and never more than there are.
pub proof fn lemma_value_is_short(kind: crate::address::Kind, s: Seq<u8>)
    ensures
        parse_value(kind, s) matches Some((v, n)) ==> 1 <= n <= 9 && n <= s.len(),
{
    lemma_parse_is_short(s, U16_BYTE);
    lemma_parse_is_short(s, U32_BYTE);
    lemma_parse_is_short(s, crate::wire::U64_BYTE);
}

/// Setting a bit sets that bit and no other; the empty mask has no bit
/// set.
pub proof fn lemma_bits(mask: u16, i: usize, j: usize)
    requires
        i < 16,
        j < 16,
    ensures
        has_bit(with_bit(mask, i), j) == (i == j || has_bit(mask, j)),
        !has_bit(0u16, j),
{
    assert((mask | (1u16 << i)) & (1u16 << j) != 0 <==> (i == j || mask & (1u16 << j) != 0))
        by (bit_vector)
        requires
            i < 16,
            j < 16,
    ;
    assert(0u16 & (1u16 << j) == 0) by (bit_vector);
}

/// Whether the value of probe `k` is in the sample: it could be read and
/// the buffer had room for it.
pub open spec fn included(x: &Container, getters: Seq<ContainerGetter>, k: nat) -> bool {
    x.value_at(getters[k as int]) matches Some(v) && packed(x, getters, k).1.len() + value_bytes(
        v,
    ).len() <= BUFFER_CAPACITY
}

/// What a sample holds of the first `k` probes stays as it is when more
/// probes follow: the buffer is only added to, the bits below `k` do not
/// change, and no bit from `k` on is set.
proof fn lemma_packed_grows(x: &Container, getters: Seq<ContainerGetter>, k: nat, n: nat)
    requires
        k <= n <= getters.len() <= SCOPE_PROBES,
    ensures
        packed(x, getters, k).1.len() <= packed(x, getters, n).1.len() <= BUFFER_CAPACITY,
        packed(x, getters, n).1.subrange(0, packed(x, getters, k).1.len() as int) == packed(
            x,
            getters,
            k,
        ).1,
        forall|i: usize|
            0 <= i < k ==> #[trigger] has_bit(packed(x, getters, n).0, i) == has_bit(
                packed(x, getters, k).0,
                i,
            ),
        forall|i: usize| k <= i < 16 ==> !#[trigger] has_bit(packed(x, getters, k).0, i),
        k < n ==> has_bit(packed(x, getters, n).0, k as usize) == included(x, getters, k),
    decreases n,
{
    let (mask_k, buf_k) = packed(x, getters, k);
    if k == n {
        assert(buf_k.subrange(0, buf_k.len() as int) =~= buf_k);
        lemma_packed_bits_below(x, getters, k);
        lemma_packed_is_bounded(x, getters, k);
    } else {
        lemma_packed_grows(x, getters, k, (n - 1) as nat);
        lemma_packed_bits_below(x, getters, (n - 1) as nat);
        lemma_packed_bits_below(x, getters, k);
        let (mask_p, buf_p) = packed(x, getters, (n - 1) as nat);
        let (mask_n, buf_n) = packed(x, getters, n);
        assert(buf_n.subrange(0, buf_k.len() as int) =~= buf_p.subrange(0, buf_k.len() as int));
        assert forall|i: usize| 0 <= i < 16 implies #[trigger] has_bit(mask_n, i) == (if i == n
            - 1 {
            included(x, getters, (n - 1) as nat)
        } else {
            has_bit(mask_p, i)
        }) by {
            lemma_bits(mask_p, (n - 1) as usize, i);
        }
    }
}

/// The buffer of a sample never outgrows its capacity.
proof fn lemma_packed_is_bounded(x: &Container, getters: Seq<ContainerGetter>, k: nat)
    ensures
        packed(x, getters, k).1.len() <= BUFFER_CAPACITY,
    decreases k,
{
    if k > 0 {
        lemma_packed_is_bounded(x, getters, (k - 1) as nat);
    }
}

/// What a sample holds of the first `k` probes has no bit from `k` on.
proof fn lemma_packed_bits_below(x: &Container, getters: Seq<ContainerGetter>, k: nat)
    requires
        k <= SCOPE_PROBES,
    ensures
        forall|i: usize| k <= i < 16 ==> !#[trigger] has_bit(packed(x, getters, k).0, i),
    decreases k,
{
    if k == 0 {
        assert forall|i: usize| 0 <= i < 16 implies !#[trigger] has_bit(0u16, i) by {
            lemma_bits(0u16, 0, i);
        }
    } else {
        lemma_packed_bits_below(x, getters, (k - 1) as nat);
        let mask_p = packed(x, getters, (k - 1) as nat).0;
        assert forall|i: usize| k <= i < 16 implies !#[trigger] has_bit(
            packed(x, getters, k).0,
            i,
        ) by {
            lemma_bits(mask_p, (k - 1) as usize, i);
        }
    }
}

/// Reading a sample against the probes it was taken of reaches, after `k`
/// probes, the place that taking it had reached, and gives for each probe
/// its value if that is in the sample and nothing otherwise.
proof fn lemma_unpacked_follows(x: &Container, getters: Seq<ContainerGetter>, k: nat)
    requires
        k <= getters.len() <= SCOPE_PROBES,
    ensures
        ({
            let n = getters.len();
            let (mask, buf) = packed(x, getters, n);
            let (values, offset) = unpacked(mask, buf, getters, k);
            &&& values.len() == k
            &&& offset == packed(x, getters, k).1.len()
            &&& forall|i: int|
                0 <= i < k ==> #[trigger] values[i] == if included(x, getters, i as nat) {
                    x.value_at(getters[i])
                } else {
                    None
                }
        }),
    decreases k,
{
    let n = getters.len();
    let (mask, buf) = packed(x, getters, n);
    if k > 0 {
        let j = (k - 1) as nat;
        lemma_unpacked_follows(x, getters, j);
        lemma_packed_grows(x, getters, j, n);
        lemma_packed_grows(x, getters, k, n);
        let (before, offset) = unpacked(mask, buf, getters, j);
        let (mask_j, buf_j) = packed(x, getters, j);
        let (mask_k, buf_k) = packed(x, getters, k);
        if included(x, getters, j) {
            let v = x.value_at(getters[j as int])->0;
            let field = value_bytes(v);
            assert(buf_k == buf_j + field);
            let more = buf.subrange(buf_k.len() as int, buf.len() as int);
            assert(tail(buf, offset) =~= field + more) by {
                assert(buf.subrange(0, buf_k.len() as int) == buf_k);
                assert forall|i: int| 0 <= i < field.len() implies tail(buf, offset)[i]
                    == field[i] by {
                    assert(buf.subrange(0, buf_k.len() as int)[offset + i] == buf[offset + i]);
                    assert(buf_k[offset + i] == field[i]);
                }
            }
            crate::codec::lemma_value_round_trip(v, more);
            crate::address::lemma_value_has_kind(*x, getters[j as int]);
        }
    }
}

/// What is read out of a sample is what was put into it: against the
/// probes that the sample was taken of, each probe whose bit is set reads
/// the value that it had on the drive, and each other probe reads
/// nothing. The bit of a probe is set exactly if its value could be read
/// and the buffer had room for it.
pub proof fn lemma_sample_reads_back(x: &Container, getters: Seq<ContainerGetter>, i: int)
    requires
        getters.len() <= SCOPE_PROBES,
        0 <= i < getters.len(),
    ensures
        ({
            let (mask, buf) = packed(x, getters, getters.len());
            let values = unpacked(mask, buf, getters, getters.len()).0;
            &&& values.len() == getters.len()
            &&& has_bit(mask, i as usize) == included(x, getters, i as nat)
            &&& has_bit(mask, i as usize) ==> values[i] is Some && values[i] == x.value_at(
                getters[i],
            )
            &&& !has_bit(mask, i as usize) ==> values[i] is None
        }),
{
    lemma_unpacked_follows(x, getters, getters.len());
    lemma_packed_grows(x, getters, i as nat, getters.len());
}

/// Up to fourteen probes always have room: each probe that can be read
/// reads back its value.
pub proof fn lemma_few_probes_all_fit(x: &Container, getters: Seq<ContainerGetter>, i: int)
    requires
        getters.len() <= 14,
        0 <= i < getters.len(),
    ensures
        ({
            let (mask, buf) = packed(x, getters, getters.len());
            unpacked(mask, buf, getters, getters.len()).0[i] == x.value_at(getters[i])
        }),
{
    lemma_sample_reads_back(x, getters, i);
    lemma_packed_is_short(x, getters, i as nat);
    match x.value_at(getters[i]) {
        Some(v) => {
            crate::codec::lemma_value_round_trip(v, Seq::empty());
        },
        None => {},
    }
}

/// Each probe adds at most nine bytes to the buffer.
proof fn lemma_packed_is_short(x: &Container, getters: Seq<ContainerGetter>, k: nat)
    ensures
        packed(x, getters, k).1.len() <= 9 * k,
    decreases k,
{
    if k > 0 {
        lemma_packed_is_short(x, getters, (k - 1) as nat);
        match x.value_at(getters[k - 1]) {
            Some(v) => {
                crate::codec::lemma_value_round_trip(v, Seq::empty());
            },
            None => {},
        }
    }
}

/// The bytes that stand for a sample: the number of the tick, the mask,
/// the length of the buffer in one byte, and the buffer.
pub open spec fn packet_bytes(id: u32, probe_valid: u16, buf: Seq<u8>) -> Seq<u8>
    recommends
        buf.len() <= BUFFER_CAPACITY,
{
    varint(id as nat) + varint(probe_valid as nat) + seq![buf.len() as u8] + buf
}

/// The sample at the start of `s`: the number of its tick, its mask and
/// its buffer, with the number of bytes the sample takes up. There is none
/// where `s` ends too early or the buffer would be longer than a sample
/// can hold.
pub open spec fn parse_packet(s: Seq<u8>) -> Option<((u32, u16, Seq<u8>), nat)> {
    match parse_varint(s, U32_BYTE) {
        Some((id, n)) => match parse_varint(tail(s, n), U16_BYTE) {
            Some((mask, m)) => {
                let at = n + m;
                if at < s.len() && s[at as int] <= BUFFER_CAPACITY && at + 1 + s[at as int]
                    <= s.len() {
                    Some(
                        (
                            (
                                id as u32,
                                mask as u16,
                                s.subrange(at as int + 1, at as int + 1 + s[at as int] as int),
                            ),
                            at + 1 + s[at as int] as nat,
                        ),
                    )
                } else {
                    None
                }
            },
            None => None,
        },
        None => None,
    }
}

/// A sample that is followed by anything at all is read back as it was
/// written.
pub proof fn lemma_packet_round_trip(id: u32, probe_valid: u16, buf: Seq<u8>, more: Seq<u8>)
    requires
        buf.len() <= BUFFER_CAPACITY,
    ensures
        parse_packet(packet_bytes(id, probe_valid, buf) + more) == Some(
            ((id, probe_valid, buf), packet_bytes(id, probe_valid, buf).len()),
        ),
{
    let a = varint(id as nat);
    let b = varint(probe_valid as nat);
    let c = seq![buf.len() as u8];
    let s = packet_bytes(id, probe_valid, buf) + more;
    assert(s =~= a + (b + c + buf + more));
    lemma_varint_round_trip(id as nat, b + c + buf + more, U32_BYTE);
    assert(tail(s, a.len()) =~= b + (c + buf + more));
    lemma_varint_round_trip(probe_valid as nat, c + buf + more, U16_BYTE);
    let at = a.len() + b.len();
    assert(s[at as int] == buf.len() as u8);
    assert(s.subrange(at as int + 1, at as int + 1 + buf.len() as int) =~= buf);
}

impl ScopePacket {
    /// Writes the sample.
    pub fn encode(&self, out: &mut Vec<u8>)
        ensures
            final(out)@ == old(out)@ + packet_bytes(self.id, self.probe_valid, self.bytes()),
            self.bytes().len() <= BUFFER_CAPACITY,
    {
        let buf = buffer_to_vec(&self.buf);
        let id = put_u32(self.id);
        let mask = put_u16(self.probe_valid);
        append(out, id.as_slice());
        append(out, mask.as_slice());
        out.push(buf.len() as u8);
        append(out, buf.as_slice());
        assert(out@ =~= old(out)@ + packet_bytes(self.id, self.probe_valid, self.bytes()));
    }

    /// Reads a sample from the start of `src`, with the number of bytes it
    /// takes up.
    pub fn decode(src: &[u8]) -> (r: Option<(ScopePacket, usize)>)
        ensures
            match parse_packet(src@) {
                Some(((id, mask, buf), n)) => r matches Some((p, k)) && p.id == id
                    && p.probe_valid == mask && p.bytes() == buf && k == n,
                None => r is None,
            },
    {
        proof {
            lemma_parse_is_short(src@, U32_BYTE);
        }
        let (id, n) = match take_u32(src) {
            Some(pair) => pair,
            None => {
                return None;
            },
        };
        proof {
            lemma_parse_is_short(tail(src@, n as nat), U16_BYTE);
        }
        let (mask, m) = match take_u16(rest(src, n)) {
            Some(pair) => pair,
            None => {
                return None;
            },
        };
        let at = n + m;
        if at >= src.len() {
            return None;
        }
        let len = src[at] as usize;
        if len > BUFFER_CAPACITY || len > src.len() - at - 1 {
            return None;
        }
        let body = vstd::slice::slice_subrange(src, at + 1, at + 1 + len);
        Some((ScopePacket { id, probe_valid: mask, buf: buffer_from(body) }, at + 1 + len))
    }
}

/// What the drive says to the host.
pub enum DeviceToHost {
    /// The sample of a tick.
    Sample(ScopePacket),
    /// Whether a write was done.
    SetterReply(Result<(), ()>),
    /// The value that a read gave, if it gave one.
    GetterReply(Result<Value, ()>),
    /// A probe has been added.
    ProbeAdded,
    /// A probe has been removed.
    ProbeRemoved,
    /// The probes have been cleared.
    ProbeCleared,
}

/// What the drive says to the host, with a sample given by what it holds.
pub enum Report {
    Sample { id: u32, probe_valid: u16, bytes: Seq<u8> },
    SetterReply(Result<(), ()>),
    GetterReply(Result<Value, ()>),
    ProbeAdded,
    ProbeRemoved,
    ProbeCleared,
}

impl View for DeviceToHost {
    type V = Report;

    open spec fn view(&self) -> Report {
        match self {
            DeviceToHost::Sample(p) => Report::Sample {
                id: p.id,
                probe_valid: p.probe_valid,
                bytes: p.bytes(),
            },
            DeviceToHost::SetterReply(r) => Report::SetterReply(*r),
            DeviceToHost::GetterReply(r) => Report::GetterReply(*r),
            DeviceToHost::ProbeAdded => Report::ProbeAdded,
            DeviceToHost::ProbeRemoved => Report::ProbeRemoved,
            DeviceToHost::ProbeCleared => Report::ProbeCleared,
        }
    }
}

/// What the host says to the drive.
#[derive(Clone, Copy, Debug, PartialEq, Eq, Structural)]
pub enum HostToDevice {
    /// Add a probe at the end of the list.
    AddProbe(ContainerGetter),
    /// Remove the probe at a place in the list; the last probe takes its
    /// place.
    RemoveProbe(u8),
    /// Remove all probes.
    ClearProbes,
    /// Send a sample on every so many ticks.
    ProbeInterval(u32),
    /// Write a value.
    Setter(ContainerSetter),
    /// Read a value.
    Getter(ContainerGetter),
}

/// The bytes that stand for a report.
pub open spec fn report_bytes(report: Report) -> Seq<u8>
    recommends
        report matches Report::Sample { bytes, .. } ==> bytes.len() <= BUFFER_CAPACITY,
{
    match report {
        Report::Sample { id, probe_valid, bytes } => seq![0u8] + packet_bytes(
            id,
            probe_valid,
            bytes,
        ),
        Report::SetterReply(r) => seq![1u8, if r is Ok {
            0u8
        } else {
            1u8
        }],
        Report::GetterReply(r) => match r {
            Ok(v) => seq![2u8, 0u8] + tagged_value_bytes(v),
            Err(_) => seq![2u8, 1u8],
        },
        Report::ProbeAdded => seq![3u8],
        Report::ProbeRemoved => seq![4u8],
        Report::ProbeCleared => seq![5u8],
    }
}

/// The report that `s` stands for, if it stands for one and nothing is
/// left over.
pub open spec fn parse_report(s: Seq<u8>) -> Option<Report> {
    if s.len() < 1 {
        None
    } else if s[0] == 0 {
        match parse_packet(tail(s, 1)) {
            Some(((id, probe_valid, bytes), n)) => if 1 + n == s.len() {
                Some(Report::Sample { id, probe_valid, bytes })
            } else {
                None
            },
            None => None,
        }
    } else if s[0] == 1 {
        if s.len() == 2 && s[1] == 0 {
            Some(Report::SetterReply(Ok(())))
        } else if s.len() == 2 && s[1] == 1 {
            Some(Report::SetterReply(Err(())))
        } else {
            None
        }
    } else if s[0] == 2 {
        if s.len() == 2 && s[1] == 1 {
            Some(Report::GetterReply(Err(())))
        } else if s.len() >= 2 && s[1] == 0 {
            match parse_tagged_value(tail(s, 2)) {
                Some((v, n)) => if 2 + n == s.len() {
                    Some(Report::GetterReply(Ok(v)))
                } else {
                    None
                },
                None => None,
            }
        } else {
            None
        }
    } else if s.len() == 1 && s[0] == 3 {
        Some(Report::ProbeAdded)
    } else if s.len() == 1 && s[0] == 4 {
        Some(Report::ProbeRemoved)
    } else if s.len() == 1 && s[0] == 5 {
        Some(Report::ProbeCleared)
    } else {
        None
    }
}

/// The bytes of a report are few enough to be framed.
pub proof fn lemma_report_is_short(report: Report)
    requires
        report matches Report::Sample { bytes, .. } ==> bytes.len() <= BUFFER_CAPACITY,
    ensures
        report_bytes(report).len() <= 140,
{
    match report {
        Report::Sample { id, probe_valid, bytes } => {
            lemma_varint_round_trip(id as nat, Seq::empty(), U32_BYTE);
            lemma_varint_round_trip(probe_valid as nat, Seq::empty(), U16_BYTE);
            assert(varint(id as nat).len() <= 5);
            assert(varint(probe_valid as nat).len() <= 3);
        },
        Report::GetterReply(r) => {
            match r {
                Ok(v) => {
                    lemma_tagged_value_round_trip(v, Seq::empty());
                },
                Err(_) => {},
            }
        },
        _ => {},
    }
}

/// The bytes of a command are few enough to be framed.
pub proof fn lemma_command_is_short(command: HostToDevice)
    ensures
        command_bytes(command).len() <= 15,
{
    match command {
        HostToDevice::AddProbe(g) => {
            lemma_getter_round_trip(g, Seq::empty());
        },
        HostToDevice::ProbeInterval(n) => {
            lemma_varint_round_trip(n as nat, Seq::empty(), U32_BYTE);
            assert(varint(n as nat).len() <= 5);
        },
        HostToDevice::Setter(w) => {
            lemma_getter_round_trip(w.address, Seq::empty());
            lemma_tagged_value_round_trip(w.value, Seq::empty());
        },
        HostToDevice::Getter(g) => {
            lemma_getter_round_trip(g, Seq::empty());
        },
        _ => {},
    }
}

/// A report is read back as it was written.
pub proof fn lemma_report_round_trip(report: Report)
    requires
        report matches Report::Sample { bytes, .. } ==> bytes.len() <= BUFFER_CAPACITY,
    ensures
        parse_report(report_bytes(report)) == Some(report),
{
    let s = report_bytes(report);
    match report {
        Report::Sample { id, probe_valid, bytes } => {
            lemma_packet_round_trip(id, probe_valid, bytes, Seq::empty());
            assert(tail(s, 1) =~= packet_bytes(id, probe_valid, bytes) + Seq::<u8>::empty());
        },
        Report::SetterReply(r) => {
            match r {
                Ok(u) => {
                    assert(u == ());
                },
                Err(u) => {
                    assert(u == ());
                },
            }
        },
        Report::GetterReply(r) => {
            match r {
                Ok(v) => {
                    lemma_tagged_value_round_trip(v, Seq::empty());
                    assert(tail(s, 2) =~= tagged_value_bytes(v) + Seq::<u8>::empty());
                },
                Err(u) => {
                    assert(u == ());
                },
            }
        },
        _ => {},
    }
}

/// The bytes that stand for a command.
pub open spec fn command_bytes(command: HostToDevice) -> Seq<u8> {
    match command {
        HostToDevice::AddProbe(g) => seq![0u8] + getter_bytes(g),
        HostToDevice::RemoveProbe(i) => seq![1u8, i],
        HostToDevice::ClearProbes => seq![2u8],
        HostToDevice::ProbeInterval(n) => seq![3u8] + varint(n as nat),
        HostToDevice::Setter(s) => seq![4u8] + setter_bytes(s),
        HostToDevice::Getter(g) => seq![5u8] + getter_bytes(g),
    }
}

/// The command that `s` stands for, if it stands for one and nothing is
/// left over.
pub open spec fn parse_command(s: Seq<u8>) -> Option<HostToDevice> {
    if s.len() < 1 {
        None
    } else if s[0] == 0 {
        match parse_getter(tail(s, 1)) {
            Some((g, n)) => if 1 + n == s.len() {
                Some(HostToDevice::AddProbe(g))
            } else {
                None
            },
            None => None,
        }
    } else if s[0] == 1 {
        if s.len() == 2 {
            Some(HostToDevice::RemoveProbe(s[1]))
        } else {
            None
        }
    } else if s[0] == 2 {
        if s.len() == 1 {
            Some(HostToDevice::ClearProbes)
        } else {
            None
        }
    } else if s[0] == 3 {
        match parse_varint(tail(s, 1), U32_BYTE) {
            Some((v, n)) => if 1 + n == s.len() {
                Some(HostToDevice::ProbeInterval(v as u32))
            } else {
                None
            },
            None => None,
        }
    } else if s[0] == 4 {
        match parse_setter(tail(s, 1)) {
            Some((setter, n)) => if 1 + n == s.len() {
                Some(HostToDevice::Setter(setter))
            } else {
                None
            },
            None => None,
        }
    } else if s[0] == 5 {
        match parse_getter(tail(s, 1)) {
            Some((g, n)) => if 1 + n == s.len() {
                Some(HostToDevice::Getter(g))
            } else {
                None
            },
            None => None,
        }
    } else {
        None
    }
}

/// A command is read back as it was written.
pub proof fn lemma_command_round_trip(command: HostToDevice)
    ensures
        parse_command(command_bytes(command)) == Some(command),
{
    let s = command_bytes(command);
    let none = Seq::<u8>::empty();
    match command {
        HostToDevice::AddProbe(g) => {
            lemma_getter_round_trip(g, none);
            assert(tail(s, 1) =~= getter_bytes(g) + none);
        },
        HostToDevice::ProbeInterval(n) => {
            lemma_varint_round_trip(n as nat, none, U32_BYTE);
            assert(tail(s, 1) =~= varint(n as nat) + none);
        },
        HostToDevice::Setter(w) => {
            lemma_setter_round_trip(w, none);
            assert(tail(s, 1) =~= setter_bytes(w) + none);
        },
        HostToDevice::Getter(g) => {
            lemma_getter_round_trip(g, none);
            assert(tail(s, 1) =~= getter_bytes(g) + none);
        },
        _ => {},
    }
}

impl DeviceToHost {
    /// The bytes that stand for the report.
    pub fn encode(&self) -> (r: Vec<u8>)
        ensures
            r@ == report_bytes(self@),
            self@ matches Report::Sample { bytes, .. } ==> bytes.len() <= BUFFER_CAPACITY,
    {
        let mut out: Vec<u8> = Vec::new();
        match self {
            DeviceToHost::Sample(p) => {
                out.push(0);
                p.encode(&mut out);
            },
            DeviceToHost::SetterReply(r) => {
                out.push(1);
                match r {
                    Ok(_) => out.push(0),
                    Err(_) => out.push(1),
                }
            },
            DeviceToHost::GetterReply(r) => {
                out.push(2);
                match r {
                    Ok(v) => {
                        out.push(0);
                        put_tagged_value(&mut out, *v);
                    },
                    Err(_) => out.push(1),
                }
            },
            DeviceToHost::ProbeAdded => out.push(3),
            DeviceToHost::ProbeRemoved => out.push(4),
            DeviceToHost::ProbeCleared => out.push(5),
        }
        assert(out@ =~= report_bytes(self@));
        out
    }

    /// The report that `src` stands for, if it stands for one and nothing
    /// is left over.
    pub fn decode(src: &[u8]) -> (r: Option<DeviceToHost>)
        ensures
            match parse_report(src@) {
                Some(report) => r matches Some(m) && m@ == report,
                None => r is None,
            },
    {
        if src.len() < 1 {
            return None;
        }
        let tag = src[0];
        if tag == 0 {
            match ScopePacket::decode(rest(src, 1)) {
                Some((p, n)) => {
                    if n == src.len() - 1 {
                        Some(DeviceToHost::Sample(p))
                    } else {
                        None
                    }
                },
                None => None,
            }
        } else if tag == 1 {
            if src.len() == 2 && src[1] == 0 {
                Some(DeviceToHost::SetterReply(Ok(())))
            } else if src.len() == 2 && src[1] == 1 {
                Some(DeviceToHost::SetterReply(Err(())))
            } else {
                None
            }
        } else if tag == 2 {
            if src.len() == 2 && src[1] == 1 {
                Some(DeviceToHost::GetterReply(Err(())))
            } else if src.len() >= 2 && src[1] == 0 {
                match take_tagged_value(rest(src, 2)) {
                    Some((v, n)) => {
                        if n == src.len() - 2 {
                            Some(DeviceToHost::GetterReply(Ok(v)))
                        } else {
                            None
                        }
                    },
                    None => None,
                }
            } else {
                None
            }
        } else if src.len() == 1 && tag == 3 {
            Some(DeviceToHost::ProbeAdded)
        } else if src.len() == 1 && tag == 4 {
            Some(DeviceToHost::ProbeRemoved)
        } else if src.len() == 1 && tag == 5 {
            Some(DeviceToHost::ProbeCleared)
        } else {
            None
        }
    }
}

impl HostToDevice {
    /// The bytes that stand for the command.
    pub fn encode(&self) -> (r: Vec<u8>)
        ensures
            r@ == command_bytes(*self),
    {
        let mut out: Vec<u8> = Vec::new();
        match self {
            HostToDevice::AddProbe(g) => {
                out.push(0);
                put_getter(&mut out, *g);
            },
            HostToDevice::RemoveProbe(i) => {
                out.push(1);
                out.push(*i);
            },
            HostToDevice::ClearProbes => out.push(2),
            HostToDevice::ProbeInterval(n) => {
                out.push(3);
                let bytes = put_u32(*n);
                append(&mut out, bytes.as_slice());
            },
            HostToDevice::Setter(s) => {
                out.push(4);
                put_getter(&mut out, s.address);
                put_tagged_value(&mut out, s.value);
            },
            HostToDevice::Getter(g) => {
                out.push(5);
                put_getter(&mut out, *g);
            },
        }
        assert(out@ =~= command_bytes(*self));
        out
    }

    /// The command that `src` stands for, if it stands for one and nothing
    /// is left over.
    pub fn decode(src: &[u8]) -> (r: Option<HostToDevice>)
        ensures
            r == parse_command(src@),
    {
        if src.len() < 1 {
            return None;
        }
        let tag = src[0];
        let body = rest(src, 1);
        if tag == 0 {
            match take_getter(body) {
                Some((g, n)) => {
                    if n == src.len() - 1 {
                        Some(HostToDevice::AddProbe(g))
                    } else {
                        None
                    }
                },
                None => None,
            }
        } else if tag == 1 {
            if src.len() == 2 {
                Some(HostToDevice::RemoveProbe(src[1]))
            } else {
                None
            }
        } else if tag == 2 {
            if src.len() == 1 {
                Some(HostToDevice::ClearProbes)
            } else {
                None
            }
        } else if tag == 3 {
            match take_u32(body) {
                Some((v, n)) => {
                    if n == src.len() - 1 {
                        Some(HostToDevice::ProbeInterval(v))
                    } else {
                        None
                    }
                },
                None => None,
            }
        } else if tag == 4 {
            match take_getter(body) {
                Some((address, n)) => {
                    match take_tagged_value(rest(body, n)) {
                        Some((value, m)) => {
                            proof {
                                assert(parse_getter(body@) matches Some((g, k)) && k <= 4) by {
                                    lemma_getter_is_short(body@);
                                }
                                lemma_tagged_is_short(tail(body@, n as nat));
                            }
                            if n + m == src.len() - 1 {
                                Some(HostToDevice::Setter(ContainerSetter { address, value }))
                            } else {
                                None
                            }
                        },
                        None => None,
                    }
                },
                None => None,
            }
        } else if tag == 5 {
            match take_getter(body) {
                Some((g, n)) => {
                    if n == src.len() - 1 {
                        Some(HostToDevice::Getter(g))
                    } else {
                        None
                    }
                },
                None => None,
            }
        } else {
            None
        }
    }
}

/// An address takes up at most four bytes.
pub proof fn lemma_getter_is_short(s: Seq<u8>)
    ensures
        parse_getter(s) matches Some((g, n)) ==> 2 <= n <= 4 && n <= s.len(),
{
}

/// A value with its type takes up at most ten bytes.
pub proof fn lemma_tagged_is_short(s: Seq<u8>)
    ensures
        parse_tagged_value(s) matches Some((v, n)) ==> 2 <= n <= 10 && n <= s.len(),
{
    if s.len() >= 1 {
        lemma_value_is_short(crate::address::Kind::U16, tail(s, 1));
        lemma_value_is_short(crate::address::Kind::U32, tail(s, 1));
        lemma_value_is_short(crate::address::Kind::Real, tail(s, 1));
    }
}

/// The raw value of the reference voltage of the converter, in volts.
pub const REFERENCE_VOLTS_RAW: i64 = 14173392077;

/// The raw value of the resolution of the converter, in counts.
pub const FULL_SCALE_RAW: i64 = 17592186044416;

/// The raw value of the ratio of the divider on the bus voltage.
pub const BUS_DIVIDER_RAW: i64 = 47244640256;

/// The raw value of the gain of the current sensors, in volts per ampere.
pub const VOLTS_PER_AMPERE_RAW: i64 = 21474836;

/// The channel of the reference of the current sensors.
pub const CURRENT_REFERENCE_CHANNEL: usize = 9;

/// The channel of the bus voltage.
pub const BUS_VOLTAGE_CHANNEL: usize = 13;

/// The voltage at a pin of the converter that reads `counts`.
pub open spec fn pin_volts(counts: i32) -> Fixed {
    Fixed::from_int(counts).over(Fixed { raw: FULL_SCALE_RAW }).times(
        Fixed { raw: REFERENCE_VOLTS_RAW },
    )
}

/// The current of a phase whose sensor reads `reading` against a reference
/// of `reference`.
pub open spec fn phase_amperes(reading: u16, reference: u16) -> Fixed {
    pin_volts((reading as i32 - reference as i32) as i32).over(Fixed { raw: VOLTS_PER_AMPERE_RAW })
}

/// The measurements of a tick that the readings `adc_buf` give.
pub open spec fn spec_to_controller_update(
    adc_buf: &[u16; 16],
    position: Option<EncoderOutput>,
    config: &Config,
) -> ControllerUpdate {
    ControllerUpdate {
        phase_currents: PhaseCurrents {
            u: phase_amperes(adc_buf[10], adc_buf[9]),
            v: phase_amperes(adc_buf[11], adc_buf[9]),
            w: phase_amperes(adc_buf[12], adc_buf[9]),
        },
        bus_voltage: pin_volts(adc_buf[13] as i32).times(Fixed { raw: BUS_DIVIDER_RAW }),
        position: match position {
            Some(p) => Some(
                p.multiply(config.encoder_len_per_cycle.over(Fixed { raw: TAU_RAW })),
            ),
            None => None,
        },
    }
}

fn adc_to_voltage(counts: i32) -> (r: Fixed)
    ensures
        r == pin_volts(counts),
{
    Fixed::from_int(counts).over(Fixed::from_raw(FULL_SCALE_RAW)).times(
        Fixed::from_raw(REFERENCE_VOLTS_RAW),
    )
}

fn adc_to_current(reading: u16, reference: u16) -> (r: Fixed)
    ensures
        r == phase_amperes(reading, reference),
{
    adc_to_voltage(reading as i32 - reference as i32).over(Fixed::from_raw(VOLTS_PER_AMPERE_RAW))
}

/// Turns the readings of a tick into measurements: the phase currents from
/// their sensors against the common reference, the bus voltage from its
/// divider, and the position of the sensor, if it has one, in millimetres.
#[verifier::when_used_as_spec(spec_to_controller_update)]
pub fn to_controller_update(
    adc_buf: &[u16; 16],
    position: Option<EncoderOutput>,
    config: &Config,
) -> (r: ControllerUpdate)
    ensures
        r == spec_to_controller_update(adc_buf, position, config),
{
    let vbus_s_pin = adc_to_voltage(adc_buf[13] as i32);
    let vbus = vbus_s_pin.times(Fixed::from_raw(BUS_DIVIDER_RAW));
    let scale = config.encoder_len_per_cycle.over(Fixed::from_raw(TAU_RAW));
    let mut currents = PhaseCurrents {
        u: adc_to_current(adc_buf[10], adc_buf[9]),
        v: adc_to_current(adc_buf[11], adc_buf[9]),
        w: adc_to_current(adc_buf[12], adc_buf[9]),
    };
    ControllerUpdate {
        phase_currents: currents.normalize(),
        bus_voltage: vbus,
        position: match position {
            Some(p) => Some(p.multiply(scale)),
            None => None,
        },
    }
}

} // verus!

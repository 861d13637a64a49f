//! Frame buffer set: the payload of a capture command, and its builder.

use vstd::prelude::*;
use crate::fw_msgs::bytes::{
    c_pad, c_u32, c_u64, c_u8, chunk_pad, chunk_u8, chunks_view, flat, group_chunks, holds_at, le_u32_bytes,
    le_u64_bytes, lemma_flat_single,
    lemma_flat_append, lemma_holds_chunks_split, lemma_le_zero, rd_take, rd_u8, read_u8, skip,
};
use crate::fw_msgs::error::{Error, Result};
use crate::fw_msgs::ids::{BufferId, CssVirtualAddress, OutputPinId};
use crate::fw_msgs::layout::{INTEL_IPU4_MAX_OPINS, SIZEOF_FRAME_BUFF_SET};
use crate::fw_msgs::messages::{
    lemma_param_pin_layout, lemma_parse_serialized, lemma_payload_layout, lemma_read_ok_param_pin, lemma_read_ok_payload, lemma_read_seq_ok, lemma_record_sizes,
    spec_deserialize, view_read, Marshal, OutputPinPayload, ParamPin,
};
use crate::fw_msgs::slots::{
    all_valid, is_zero_record, lemma_read_seq_len, lemma_read_slots, lemma_slot_bytes, lemma_slots_reserialize, lemma_slots_len, read_items, read_seq, slot_chunks, slot_chunks_of,
    slot_values,
};
use crate::fw_msgs::stream_cfg::flag_byte;

verus! {

/// Frame buffer set (`struct ipu_fw_isys_frame_buff_set_abi`).
///
/// The ABI struct always carries `INTEL_IPU4_MAX_OPINS` output-pin payload
/// slots; `output_pins` holds the populated ones, and the remaining slots are
/// serialized as zeros.
#[derive(Debug, Clone, PartialEq, Eq, Default)]
pub struct FrameBuffSet {
    pub output_pins: Vec<OutputPinPayload>,
    pub process_group_light: ParamPin,
    pub send_irq_sof: bool,
    pub send_irq_eof: bool,
    pub send_resp_sof: bool,
    pub send_resp_eof: bool,
}

/// A frame buffer set as a value: the payloads as a sequence.
pub struct FrameBuffSetView {
    pub output_pins: Seq<OutputPinPayload>,
    pub process_group_light: ParamPin,
    pub send_irq_sof: bool,
    pub send_irq_eof: bool,
    pub send_resp_sof: bool,
    pub send_resp_eof: bool,
}

impl View for FrameBuffSet {
    type V = FrameBuffSetView;

    open spec fn view(&self) -> FrameBuffSetView {
        FrameBuffSetView {
            output_pins: self.output_pins@,
            process_group_light: self.process_group_light,
            send_irq_sof: self.send_irq_sof,
            send_irq_eof: self.send_irq_eof,
            send_resp_sof: self.send_resp_sof,
            send_resp_eof: self.send_resp_eof,
        }
    }
}

/// The all-zero output-pin payload: what an unpopulated slot holds.
pub open spec fn zero_payload() -> OutputPinPayload {
    OutputPinPayload { out_buf_id: BufferId(0), addr: CssVirtualAddress(0) }
}

/// The all-zero parameter pin.
pub open spec fn zero_param_pin() -> ParamPin {
    ParamPin { param_buf_id: BufferId(0), addr: CssVirtualAddress(0) }
}

/// The empty frame buffer set: no payloads, a zero parameter pin, no flags.
pub open spec fn default_frame_buff_set() -> FrameBuffSetView {
    FrameBuffSetView {
        output_pins: Seq::empty(),
        process_group_light: zero_param_pin(),
        send_irq_sof: false,
        send_irq_eof: false,
        send_resp_sof: false,
        send_resp_eof: false,
    }
}

proof fn lemma_zero_payload()
    ensures
        is_zero_record(zero_payload()),
{
    broadcast use group_chunks;

    lemma_record_sizes();
    lemma_le_zero();
    assert(flat(zero_payload().spec_chunks()) =~= c_pad(16));
}

/// The validation outcome of a frame buffer set: at most
/// `INTEL_IPU4_MAX_OPINS` payloads.
pub open spec fn spec_validate_frame_buff_set(v: FrameBuffSetView) -> Result<()> {
    if v.output_pins.len() > INTEL_IPU4_MAX_OPINS {
        Err(Error::TooMany { field: "output_pins", value: v.output_pins.len() as usize, max: INTEL_IPU4_MAX_OPINS })
    } else {
        Ok(())
    }
}

/// The chunks of the closing flags and trailing padding.
pub open spec fn frame_buff_tail_chunks(v: FrameBuffSetView) -> Seq<Seq<u8>> {
    seq![c_u8(flag_byte(v.send_irq_sof))].push(c_u8(flag_byte(v.send_irq_eof))).push(
        c_u8(flag_byte(v.send_resp_sof)),
    ).push(c_u8(flag_byte(v.send_resp_eof))).push(c_pad(4))
}

fn flag_u8(b: bool) -> (r: u8)
    ensures
        r == flag_byte(b),
{
    if b { 1 } else { 0 }
}

impl Marshal for FrameBuffSet {
    const SERIALIZED_SIZE: usize = SIZEOF_FRAME_BUFF_SET;

    open spec fn spec_validate(&self) -> Result<()> {
        spec_validate_frame_buff_set(self@)
    }

    open spec fn spec_chunks(&self) -> Seq<Seq<u8>> {
        slot_chunks(self.output_pins@, INTEL_IPU4_MAX_OPINS as nat) + self.process_group_light.spec_chunks()
            + frame_buff_tail_chunks(self@)
    }

    open spec fn spec_read(s: Seq<u8>, pos: usize) -> Result<(FrameBuffSetView, usize)> {
        match read_seq::<OutputPinPayload>(s, pos, INTEL_IPU4_MAX_OPINS as nat) {
            Err(e) => Err(e),
            Ok((output_pins, p)) => match ParamPin::spec_read(s, p) {
                Err(e) => Err(e),
                Ok((process_group_light, p)) => match rd_u8(s, p) {
                    Err(e) => Err(e),
                    Ok((irq_sof, p)) => match rd_u8(s, p) {
                        Err(e) => Err(e),
                        Ok((irq_eof, p)) => match rd_u8(s, p) {
                            Err(e) => Err(e),
                            Ok((resp_sof, p)) => match rd_u8(s, p) {
                                Err(e) => Err(e),
                                Ok((resp_eof, p)) => match rd_take(s, p, 4) {
                                    Err(e) => Err(e),
                                    Ok(p) => Ok((FrameBuffSetView {
                                        output_pins,
                                        process_group_light,
                                        send_irq_sof: irq_sof != 0,
                                        send_irq_eof: irq_eof != 0,
                                        send_resp_sof: resp_sof != 0,
                                        send_resp_eof: resp_eof != 0,
                                    }, p)),
                                },
                            },
                        },
                    },
                },
            },
        }
    }

    /// Parsing always yields all `INTEL_IPU4_MAX_OPINS` slots: the ABI has no
    /// payload count, so unpopulated slots come back as zero payloads.
    open spec fn spec_normalize(&self) -> FrameBuffSetView {
        FrameBuffSetView {
            output_pins: slot_values(self.output_pins@, INTEL_IPU4_MAX_OPINS as nat, zero_payload()),
            ..self@
        }
    }

    fn validate(&self) -> (r: Result<()>) {
        if self.output_pins.len() > INTEL_IPU4_MAX_OPINS {
            return Err(Error::TooMany { field: "output_pins", value: self.output_pins.len(), max: INTEL_IPU4_MAX_OPINS });
        }
        Ok(())
    }

    fn chunks(&self) -> (r: Vec<Vec<u8>>) {
        let mut v = slot_chunks_of(self.output_pins.as_slice(), INTEL_IPU4_MAX_OPINS);
        let mut c = self.process_group_light.chunks();
        v.append(&mut c);
        v.push(chunk_u8(flag_u8(self.send_irq_sof)));
        v.push(chunk_u8(flag_u8(self.send_irq_eof)));
        v.push(chunk_u8(flag_u8(self.send_resp_sof)));
        v.push(chunk_u8(flag_u8(self.send_resp_eof)));
        v.push(chunk_pad(4));
        proof { assert(chunks_view(v@) =~= self.spec_chunks()); }
        v
    }

    fn read_at(buf: &[u8], pos: usize) -> (r: Result<(Self, usize)>) {
        proof { lemma_record_sizes(); }
        let (output_pins, p) = read_items::<OutputPinPayload>(buf, pos, INTEL_IPU4_MAX_OPINS)?;
        let (process_group_light, p) = ParamPin::read_at(buf, p)?;
        let (irq_sof, p) = read_u8(buf, p)?;
        let (irq_eof, p) = read_u8(buf, p)?;
        let (resp_sof, p) = read_u8(buf, p)?;
        let (resp_eof, p) = read_u8(buf, p)?;
        let p = skip(buf, p, 4)?;
        proof { assert(output_pins@ =~= output_pins@.map_values(|x: OutputPinPayload| x@)); }
        Ok((
            FrameBuffSet {
                output_pins,
                process_group_light,
                send_irq_sof: irq_sof != 0,
                send_irq_eof: irq_eof != 0,
                send_resp_sof: resp_sof != 0,
                send_resp_eof: resp_eof != 0,
            },
            p,
        ))
    }

    proof fn lemma_size_bound() {
    }

    proof fn lemma_reserialize(&self, other: &Self) {
        lemma_zero_payload();
        lemma_slots_reserialize(self.output_pins@, INTEL_IPU4_MAX_OPINS as nat, zero_payload(), other.output_pins@);
        assert(other.spec_chunks() == slot_chunks(other.output_pins@, INTEL_IPU4_MAX_OPINS as nat)
            + self.process_group_light.spec_chunks() + frame_buff_tail_chunks(self@));
        lemma_flat_append(slot_chunks(other.output_pins@, INTEL_IPU4_MAX_OPINS as nat), self.process_group_light.spec_chunks());
        lemma_flat_append(slot_chunks(self.output_pins@, INTEL_IPU4_MAX_OPINS as nat), self.process_group_light.spec_chunks());
        lemma_flat_append(
            slot_chunks(other.output_pins@, INTEL_IPU4_MAX_OPINS as nat) + self.process_group_light.spec_chunks(),
            frame_buff_tail_chunks(self@),
        );
        lemma_flat_append(
            slot_chunks(self.output_pins@, INTEL_IPU4_MAX_OPINS as nat) + self.process_group_light.spec_chunks(),
            frame_buff_tail_chunks(self@),
        );
    }

    proof fn lemma_size(&self) {
        broadcast use group_chunks;

        lemma_record_sizes();
        self.process_group_light.lemma_size();
        lemma_slots_len(self.output_pins@, INTEL_IPU4_MAX_OPINS as nat);
    }

    proof fn lemma_read_back(&self, s: Seq<u8>, pos: usize) {
        broadcast use group_chunks;

        let a = slot_chunks(self.output_pins@, INTEL_IPU4_MAX_OPINS as nat);
        let b = self.process_group_light.spec_chunks();
        let c = frame_buff_tail_chunks(self@);
        lemma_record_sizes();
        lemma_zero_payload();
        self.process_group_light.lemma_size();
        lemma_slots_len(self.output_pins@, INTEL_IPU4_MAX_OPINS as nat);
        lemma_flat_append(a, b);
        lemma_holds_chunks_split(s, pos as int, a + b, c);
        lemma_holds_chunks_split(s, pos as int, a, b);
        lemma_read_slots(self.output_pins@, INTEL_IPU4_MAX_OPINS as nat, zero_payload(), s, pos);
        self.process_group_light.lemma_read_back(s, (pos + 96) as usize);
    }
}

impl FrameBuffSet {
    /// Start building a frame buffer set from the empty one.
    pub fn builder() -> (r: FrameBuffSetBuilder)
        ensures
            r@ == default_frame_buff_set(),
    {
        FrameBuffSetBuilder::default()
    }
}

/// The payload slots after storing `payload` at `idx`: the slots are first
/// extended with zero payloads up to `idx` when they are shorter.
pub open spec fn set_payload_slot(pins: Seq<OutputPinPayload>, idx: int, payload: OutputPinPayload) -> Seq<OutputPinPayload> {
    let grown = if pins.len() <= idx {
        pins + Seq::new((idx + 1 - pins.len()) as nat, |i: int| zero_payload())
    } else {
        pins
    };
    grown.update(idx, payload)
}

/// Builder of [`FrameBuffSet`].
#[derive(Debug)]
pub struct FrameBuffSetBuilder {
    inner: FrameBuffSet,
}

impl FrameBuffSetBuilder {
    /// The payload list never outgrows the ABI array.
    #[verifier::type_invariant]
    spec fn inv(self) -> bool {
        self.inner.output_pins@.len() <= INTEL_IPU4_MAX_OPINS
    }
}

impl View for FrameBuffSetBuilder {
    type V = FrameBuffSetView;

    closed spec fn view(&self) -> FrameBuffSetView {
        self.inner@
    }
}

impl Default for FrameBuffSetBuilder {
    fn default() -> (r: Self)
        ensures
            r@ == default_frame_buff_set(),
    {
        let inner = FrameBuffSet {
            output_pins: Vec::new(),
            process_group_light: ParamPin { param_buf_id: BufferId(0), addr: CssVirtualAddress(0) },
            send_irq_sof: false,
            send_irq_eof: false,
            send_resp_sof: false,
            send_resp_eof: false,
        };
        FrameBuffSetBuilder { inner }
    }
}

impl FrameBuffSetBuilder {
    /// Append an output-pin payload at the next index; a seventh payload
    /// exceeds `INTEL_IPU4_MAX_OPINS` and is rejected with the count it would
    /// have made.
    pub fn add_output_pin(self, payload: OutputPinPayload) -> (r: Result<Self>)
        ensures
            self@.output_pins.len() < INTEL_IPU4_MAX_OPINS ==> (r matches Ok(b) && b@ == (FrameBuffSetView {
                output_pins: self@.output_pins.push(payload),
                ..self@
            })),
            self@.output_pins.len() >= INTEL_IPU4_MAX_OPINS ==> r == Err::<Self, Error>(
                Error::TooMany {
                    field: "output_pins",
                    value: (self@.output_pins.len() + 1) as usize,
                    max: INTEL_IPU4_MAX_OPINS,
                },
            ),
    {
        proof { use_type_invariant(&self); }
        if self.inner.output_pins.len() >= INTEL_IPU4_MAX_OPINS {
            return Err(Error::TooMany {
                field: "output_pins",
                value: self.inner.output_pins.len() + 1,
                max: INTEL_IPU4_MAX_OPINS,
            });
        }
        let mut inner = self.inner;
        inner.output_pins.push(payload);
        Ok(FrameBuffSetBuilder { inner })
    }

    /// Store a payload at the slot of `id`, first growing the payload list
    /// with zero payloads when it is shorter.
    pub fn set_output_pin(self, id: OutputPinId, payload: OutputPinPayload) -> (r: Self)
        ensures
            r@ == (FrameBuffSetView {
                output_pins: set_payload_slot(self@.output_pins, id.spec_get() as int, payload),
                ..self@
            }),
    {
        proof { use_type_invariant(&self); }
        let ghost orig = self@;
        let idx = id.get() as usize;
        let mut inner = self.inner;
        while inner.output_pins.len() <= idx
            invariant
                idx < INTEL_IPU4_MAX_OPINS,
                inner.output_pins@.len() <= INTEL_IPU4_MAX_OPINS,
                orig.output_pins.len() <= idx ==> inner.output_pins@ == orig.output_pins + Seq::new(
                    (inner.output_pins@.len() - orig.output_pins.len()) as nat,
                    |i: int| zero_payload(),
                ),
                orig.output_pins.len() <= idx ==> inner.output_pins@.len() <= idx + 1,
                orig.output_pins.len() > idx ==> inner.output_pins@ == orig.output_pins,
                inner.output_pins@.len() >= orig.output_pins.len(),
                inner@ == (FrameBuffSetView { output_pins: inner.output_pins@, ..orig }),
            decreases idx + 1 - inner.output_pins@.len(),
        {
            let ghost prev = inner.output_pins@;
            inner.output_pins.push(OutputPinPayload { out_buf_id: BufferId(0), addr: CssVirtualAddress(0) });
            assert(inner.output_pins@ =~= orig.output_pins + Seq::new(
                (inner.output_pins@.len() - orig.output_pins.len()) as nat,
                |i: int| zero_payload(),
            ));
        }
        inner.output_pins.set(idx, payload);
        proof {
            assert(inner.output_pins@ =~= set_payload_slot(orig.output_pins, idx as int, payload));
        }
        FrameBuffSetBuilder { inner }
    }

    pub fn process_group_light(self, pgl: ParamPin) -> (r: Self)
        ensures
            r@ == (FrameBuffSetView { process_group_light: pgl, ..self@ }),
    {
        proof { use_type_invariant(&self); }
        let mut inner = self.inner;
        inner.process_group_light = pgl;
        FrameBuffSetBuilder { inner }
    }

    pub fn send_irq_sof(self, v: bool) -> (r: Self)
        ensures
            r@ == (FrameBuffSetView { send_irq_sof: v, ..self@ }),
    {
        proof { use_type_invariant(&self); }
        let mut inner = self.inner;
        inner.send_irq_sof = v;
        FrameBuffSetBuilder { inner }
    }

    pub fn send_irq_eof(self, v: bool) -> (r: Self)
        ensures
            r@ == (FrameBuffSetView { send_irq_eof: v, ..self@ }),
    {
        proof { use_type_invariant(&self); }
        let mut inner = self.inner;
        inner.send_irq_eof = v;
        FrameBuffSetBuilder { inner }
    }

    pub fn send_resp_sof(self, v: bool) -> (r: Self)
        ensures
            r@ == (FrameBuffSetView { send_resp_sof: v, ..self@ }),
    {
        proof { use_type_invariant(&self); }
        let mut inner = self.inner;
        inner.send_resp_sof = v;
        FrameBuffSetBuilder { inner }
    }

    pub fn send_resp_eof(self, v: bool) -> (r: Self)
        ensures
            r@ == (FrameBuffSetView { send_resp_eof: v, ..self@ }),
    {
        proof { use_type_invariant(&self); }
        let mut inner = self.inner;
        inner.send_resp_eof = v;
        FrameBuffSetBuilder { inner }
    }

    /// Validate and produce the frame buffer set. The builder never holds
    /// more payloads than the ABI array, so this always succeeds.
    pub fn build(self) -> (r: Result<FrameBuffSet>)
        ensures
            spec_validate_frame_buff_set(self@) is Ok,
            r matches Ok(f) && f@ == self@,
    {
        proof { use_type_invariant(&self); }
        match self.inner.validate() {
            Err(e) => Err(e),
            Ok(()) => Ok(self.inner),
        }
    }
}

/// The payloads `pins` padded with zero payloads to the `INTEL_IPU4_MAX_OPINS`
/// slots of the ABI.
pub open spec fn padded_payloads(pins: Seq<OutputPinPayload>) -> Seq<OutputPinPayload> {
    pins + Seq::new((INTEL_IPU4_MAX_OPINS - pins.len()) as nat, |i: int| zero_payload())
}

/// Reading a frame buffer set. A set with at most `INTEL_IPU4_MAX_OPINS`
/// payloads serializes to 120 bytes that read back as the set with its
/// payloads padded with zero payloads to all the slots; a set equal to that
/// padded form serializes to the same bytes. Any buffer shorter than 120
/// bytes is too small, and any longer one reads, with a payload per slot.
pub proof fn lemma_frame_buff_set_read(f: FrameBuffSet, g: FrameBuffSet, s: Seq<u8>)
    ensures
        f.output_pins@.len() <= INTEL_IPU4_MAX_OPINS ==> {
            &&& flat(f.spec_chunks()).len() == 120
            &&& spec_deserialize::<FrameBuffSet>(flat(f.spec_chunks())) == Ok::<FrameBuffSetView, Error>(
                FrameBuffSetView { output_pins: padded_payloads(f.output_pins@), ..f@ },
            )
        },
        f.output_pins@.len() <= INTEL_IPU4_MAX_OPINS && g@ == (FrameBuffSetView {
            output_pins: padded_payloads(f.output_pins@),
            ..f@
        }) ==> g.spec_validate() is Ok && flat(g.spec_chunks()) == flat(f.spec_chunks()),
        s.len() < 120 ==> spec_deserialize::<FrameBuffSet>(s) == Err::<FrameBuffSetView, Error>(
            Error::BufferTooSmall { expected: 120, actual: s.len() as usize },
        ),
        s.len() >= 120 ==> (spec_deserialize::<FrameBuffSet>(s) matches Ok(d) && d.output_pins.len()
            == INTEL_IPU4_MAX_OPINS),
{
    if f.output_pins@.len() <= INTEL_IPU4_MAX_OPINS {
        assert(padded_payloads(f.output_pins@) =~= slot_values(f.output_pins@, INTEL_IPU4_MAX_OPINS as nat, zero_payload()));
        f.lemma_size();
        lemma_parse_serialized(f);
        if g@ == (FrameBuffSetView { output_pins: padded_payloads(f.output_pins@), ..f@ }) {
            f.lemma_reserialize(&g);
        }
    }
    if s.len() >= 120 {
        lemma_record_sizes();
        assert forall|x: usize| 0 <= x && x + 16 <= 0 + 6 * 16 implies (#[trigger] OutputPinPayload::spec_read(s, x)
            matches Ok((_, q)) && q == x + 16) by {
            lemma_read_ok_payload(s, x);
        }
        lemma_read_seq_ok::<OutputPinPayload>(s, 0, 6);
        lemma_read_seq_len::<OutputPinPayload>(s, 0, 6);
        lemma_read_ok_param_pin(s, 96);
    }
}

/// Byte layout of a frame buffer set with at most `INTEL_IPU4_MAX_OPINS`
/// payloads: payload slot `i` at `16 * i .. 16 * i + 16` (buffer id, address,
/// 4 zero bytes; 16 zero bytes for an unpopulated slot), the parameter pin at
/// 96..112, the flags send_irq_sof at 112, send_irq_eof at 113,
/// send_resp_sof at 114 and send_resp_eof at 115 (1 when set, else 0), and
/// zeros at 116..120.
pub proof fn lemma_frame_buff_set_layout(f: FrameBuffSet)
    requires
        f.output_pins@.len() <= INTEL_IPU4_MAX_OPINS,
    ensures
        flat(f.spec_chunks()).len() == 120,
        forall|i: int|
            0 <= i < 6 ==> #[trigger] flat(f.spec_chunks()).subrange(16 * i, 16 * i + 16) == (if i < f.output_pins@.len() {
                le_u64_bytes(f.output_pins@[i].out_buf_id.0) + le_u32_bytes(f.output_pins@[i].addr.0) + c_pad(4)
            } else {
                c_pad(16)
            }),
        flat(f.spec_chunks()).subrange(96, 112) == le_u64_bytes(f.process_group_light.param_buf_id.0) + le_u32_bytes(
            f.process_group_light.addr.0,
        ) + c_pad(4),
        flat(f.spec_chunks())[112] == (if f.send_irq_sof { 1u8 } else { 0u8 }),
        flat(f.spec_chunks())[113] == (if f.send_irq_eof { 1u8 } else { 0u8 }),
        flat(f.spec_chunks())[114] == (if f.send_resp_sof { 1u8 } else { 0u8 }),
        flat(f.spec_chunks())[115] == (if f.send_resp_eof { 1u8 } else { 0u8 }),
        flat(f.spec_chunks()).subrange(116, 120) == c_pad(4),
{
    broadcast use group_chunks;
    lemma_record_sizes();
    let pins = f.output_pins@;
    let a = flat(slot_chunks(pins, 6));
    let p = flat(f.process_group_light.spec_chunks());
    let t = flat(frame_buff_tail_chunks(f@));
    assert(all_valid(pins));
    lemma_slots_len(pins, 6);
    lemma_param_pin_layout(f.process_group_light);
    lemma_flat_single(c_u8(flag_byte(f.send_irq_sof)));
    assert(t =~= seq![flag_byte(f.send_irq_sof), flag_byte(f.send_irq_eof), flag_byte(f.send_resp_sof), flag_byte(f.send_resp_eof)]
        + c_pad(4));
    let b = flat(f.spec_chunks());
    assert(b == a + p + t);
    assert forall|i: int| 0 <= i < 6 implies #[trigger] b.subrange(16 * i, 16 * i + 16) == (if i < pins.len() {
        le_u64_bytes(pins[i].out_buf_id.0) + le_u32_bytes(pins[i].addr.0) + c_pad(4)
    } else {
        c_pad(16)
    }) by {
        lemma_slot_bytes(pins, 6, i);
        if i < pins.len() {
            lemma_payload_layout(pins[i]);
        }
        assert(b.subrange(16 * i, 16 * i + 16) =~= a.subrange(16 * i, 16 * i + 16));
    }
    assert(b.subrange(96, 112) =~= p);
    assert(b.subrange(116, 120) =~= c_pad(4));
}

/// The serialized size of a FrameBuffSet.
pub proof fn lemma_frame_buff_set_size()
    ensures
        FrameBuffSet::SERIALIZED_SIZE == 120,
{
}

} // verus!

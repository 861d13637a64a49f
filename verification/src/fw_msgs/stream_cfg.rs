//! Stream configuration: the payload of a `STREAM_OPEN` command, and its
//! builder.

use vstd::prelude::*;
use crate::fw_msgs::bytes::{
    c_i32, c_pad, c_u32, c_u8, chunk_pad, chunk_u32, chunk_u8, flat, group_chunks, holds_at,
    le_u32_bytes, le_u32_value, lemma_flat_single, lemma_flat_append, lemma_holds_chunks_split, lemma_le_zero, rd_take, rd_u32, rd_u8, read_u32,
    read_u8, skip,
};
use crate::fw_msgs::enums::{group_enum_roundtrip, IslUse};
use crate::fw_msgs::error::{Error, Result};
use crate::fw_msgs::layout::{
    INTEL_IPU4_MAX_IPINS, INTEL_IPU4_MAX_OPINS, N_IPU_FW_ISYS_CROPPING_LOCATION, SIZEOF_STREAM_CFG_DATA,
};
use crate::fw_msgs::messages::{
    Cropping, InputPinInfo, IsaConfig, Marshal, OutputPinInfo, Resolution, lemma_record_sizes, view_read,
    lemma_parse_serialized, lemma_read_ok_cropping, lemma_read_ok_input_pin, lemma_read_ok_isa_cfg,
    lemma_read_ok_output_pin, lemma_read_seq_ok, spec_deserialize, lemma_cropping_layout, lemma_input_pin_layout,
    lemma_output_pin_layout,
};
use crate::fw_msgs::slots::{
    all_valid, is_zero_record, lemma_read_seq_len, lemma_read_slots, lemma_slot_bytes, lemma_slots_len, read_items, read_seq, slot_chunks,
    slot_chunks_of, slot_values,
};
use crate::fw_msgs::tables::{bits_per_pixel, spec_bits_per_pixel};

verus! {

/// Stream configuration data (`struct ipu_fw_isys_stream_cfg_data_abi`).
///
/// `input_pins` and `output_pins` hold only the valid pins; their lengths are
/// serialized as `nof_input_pins` / `nof_output_pins`, and the unused ABI
/// array slots are serialized as zeros.
#[derive(Debug, Clone, PartialEq, Eq)]
pub struct StreamCfgData {
    pub isa_cfg: IsaConfig,
    pub crop: [Cropping; N_IPU_FW_ISYS_CROPPING_LOCATION],
    pub input_pins: Vec<InputPinInfo>,
    pub output_pins: Vec<OutputPinInfo>,
    pub compfmt: u32,
    pub send_irq_sof_discarded: bool,
    pub send_irq_eof_discarded: bool,
    pub send_resp_sof_discarded: bool,
    pub send_resp_eof_discarded: bool,
    pub src: u8,
    pub vc: u8,
    pub isl_use: IslUse,
}

/// A stream configuration as a value: the pin lists and the cropping array as
/// sequences.
pub struct StreamCfgDataView {
    pub isa_cfg: IsaConfig,
    pub crop: Seq<Cropping>,
    pub input_pins: Seq<InputPinInfo>,
    pub output_pins: Seq<OutputPinInfo>,
    pub compfmt: u32,
    pub send_irq_sof_discarded: bool,
    pub send_irq_eof_discarded: bool,
    pub send_resp_sof_discarded: bool,
    pub send_resp_eof_discarded: bool,
    pub src: u8,
    pub vc: u8,
    pub isl_use: IslUse,
}

impl View for StreamCfgData {
    type V = StreamCfgDataView;

    open spec fn view(&self) -> StreamCfgDataView {
        StreamCfgDataView {
            isa_cfg: self.isa_cfg,
            crop: self.crop@,
            input_pins: self.input_pins@,
            output_pins: self.output_pins@,
            compfmt: self.compfmt,
            send_irq_sof_discarded: self.send_irq_sof_discarded,
            send_irq_eof_discarded: self.send_irq_eof_discarded,
            send_resp_sof_discarded: self.send_resp_sof_discarded,
            send_resp_eof_discarded: self.send_resp_eof_discarded,
            src: self.src,
            vc: self.vc,
            isl_use: self.isl_use,
        }
    }
}

/// The empty configuration: zero ISA configuration and croppings, no pins,
/// all flags clear, no ISL/ISA use.
pub open spec fn default_stream_cfg() -> StreamCfgDataView {
    StreamCfgDataView {
        isa_cfg: default_isa_cfg(),
        crop: Seq::new(N_IPU_FW_ISYS_CROPPING_LOCATION as nat, |i: int| zero_cropping()),
        input_pins: Seq::empty(),
        output_pins: Seq::empty(),
        compfmt: 0,
        send_irq_sof_discarded: false,
        send_irq_eof_discarded: false,
        send_resp_sof_discarded: false,
        send_resp_eof_discarded: false,
        src: 0,
        vc: 0,
        isl_use: IslUse::NoIslNoIsa,
    }
}

/// The ISA configuration with zero resolutions and every flag clear.
pub open spec fn default_isa_cfg() -> IsaConfig {
    IsaConfig {
        isa_res: [Resolution { width: 0, height: 0 }, Resolution { width: 0, height: 0 }],
        blc: false,
        lsc: false,
        dpc: false,
        downscaler: false,
        awb: false,
        af: false,
        ae: false,
        paf: 0,
        send_irq_stats_ready: false,
        send_resp_stats_ready: false,
    }
}

/// The all-zero cropping.
pub open spec fn zero_cropping() -> Cropping {
    Cropping { top_offset: 0, left_offset: 0, bottom_offset: 0, right_offset: 0 }
}

/// The all-zero input pin.
pub open spec fn zero_input_pin() -> InputPinInfo {
    InputPinInfo { input_res: Resolution { width: 0, height: 0 }, dt: 0, mipi_store_mode: 0, bits_per_pix: 0 }
}

/// The all-zero output pin.
pub open spec fn zero_output_pin() -> OutputPinInfo {
    OutputPinInfo {
        output_res: Resolution { width: 0, height: 0 },
        stride: 0,
        watermark_in_lines: 0,
        send_irq: 0,
        input_pin_id: 0,
        pt: 0,
        ft: 0,
        online: 0,
    }
}

proof fn lemma_zero_records()
    ensures
        is_zero_record(zero_cropping()),
        is_zero_record(zero_input_pin()),
        is_zero_record(zero_output_pin()),
{
    broadcast use group_chunks;

    lemma_record_sizes();
    lemma_le_zero();
    assert(c_i32(0) == c_u32(0));
    assert(flat(zero_cropping().spec_chunks()) =~= c_pad(16));
    assert(flat(zero_input_pin().spec_chunks()) =~= c_pad(12));
    assert(flat(zero_output_pin().spec_chunks()) =~= c_pad(24));
}

/// The byte of a flag: `1` when set.
pub open spec fn flag_byte(b: bool) -> u8 {
    if b { 1 } else { 0 }
}

fn flag_u8(b: bool) -> (r: u8)
    ensures
        r == flag_byte(b),
{
    if b { 1 } else { 0 }
}

/// The chunks of the scalar fields that close the structure: the compression
/// format, the pin counts, the discard flags, source, virtual channel, ISL use
/// and three bytes of trailing padding.
pub open spec fn cfg_tail_chunks(v: StreamCfgDataView) -> Seq<Seq<u8>> {
    seq![c_u32(v.compfmt)].push(c_u8(v.input_pins.len() as u8)).push(c_u8(v.output_pins.len() as u8)).push(
        c_u8(flag_byte(v.send_irq_sof_discarded)),
    ).push(c_u8(flag_byte(v.send_irq_eof_discarded))).push(c_u8(flag_byte(v.send_resp_sof_discarded))).push(
        c_u8(flag_byte(v.send_resp_eof_discarded)),
    ).push(c_u8(v.src)).push(c_u8(v.vc)).push(c_u8(v.isl_use.spec_as_u32() as u8)).push(c_pad(3))
}

/// The validation outcome of a configuration: at most
/// `INTEL_IPU4_MAX_IPINS` input pins, then at most `INTEL_IPU4_MAX_OPINS`
/// output pins.
pub open spec fn spec_validate_cfg(v: StreamCfgDataView) -> Result<()> {
    if v.input_pins.len() > INTEL_IPU4_MAX_IPINS {
        Err(Error::TooMany { field: "input_pins", value: v.input_pins.len() as usize, max: INTEL_IPU4_MAX_IPINS })
    } else if v.output_pins.len() > INTEL_IPU4_MAX_OPINS {
        Err(Error::TooMany { field: "output_pins", value: v.output_pins.len() as usize, max: INTEL_IPU4_MAX_OPINS })
    } else {
        Ok(())
    }
}

/// The input pin `p` with `bits_per_pix` filled in from its data type.
pub open spec fn with_bits_per_pix(p: InputPinInfo) -> InputPinInfo {
    InputPinInfo { bits_per_pix: spec_bits_per_pixel(p.dt) as u8, ..p }
}

impl Default for StreamCfgData {
    fn default() -> (r: Self)
        ensures
            r@ == default_stream_cfg(),
    {
        let zero_res = Resolution { width: 0, height: 0 };
        let isa_cfg = IsaConfig {
            isa_res: [zero_res, zero_res],
            blc: false,
            lsc: false,
            dpc: false,
            downscaler: false,
            awb: false,
            af: false,
            ae: false,
            paf: 0,
            send_irq_stats_ready: false,
            send_resp_stats_ready: false,
        };
        let c = Cropping { top_offset: 0, left_offset: 0, bottom_offset: 0, right_offset: 0 };
        let r = StreamCfgData {
            isa_cfg,
            crop: [c, c, c, c],
            input_pins: Vec::new(),
            output_pins: Vec::new(),
            compfmt: 0,
            send_irq_sof_discarded: false,
            send_irq_eof_discarded: false,
            send_resp_sof_discarded: false,
            send_resp_eof_discarded: false,
            src: 0,
            vc: 0,
            isl_use: IslUse::NoIslNoIsa,
        };
        assert(r.crop@ =~= default_stream_cfg().crop);
        assert(r.isa_cfg.isa_res =~= default_isa_cfg().isa_res);
        r
    }
}

impl StreamCfgData {
    /// Start building a stream configuration from the empty one.
    pub fn builder() -> (r: StreamCfgBuilder)
        ensures
            r@ == default_stream_cfg(),
    {
        StreamCfgBuilder::default()
    }

    /// Number of valid input pins (the serialized `nof_input_pins`).
    pub fn nof_input_pins(&self) -> (r: u8)
        ensures
            r == self.input_pins@.len() as u8,
    {
        self.input_pins.len() as u8
    }

    /// Number of valid output pins (the serialized `nof_output_pins`).
    pub fn nof_output_pins(&self) -> (r: u8)
        ensures
            r == self.output_pins@.len() as u8,
    {
        self.output_pins.len() as u8
    }

    /// Fill each input pin's `bits_per_pix` from the MIPI-data-type table
    /// (`intel_ipu4_isys_set_fw_params`); nothing else changes.
    pub fn set_fw_params(&mut self)
        ensures
            final(self)@ == (StreamCfgDataView {
                input_pins: old(self)@.input_pins.map_values(|p: InputPinInfo| with_bits_per_pix(p)),
                ..old(self)@
            }),
    {
        let mut i: usize = 0;
        let n = self.input_pins.len();
        while i < n
            invariant
                i <= n,
                n == self.input_pins@.len(),
                n == old(self).input_pins@.len(),
                forall|j: int| 0 <= j < i ==> self.input_pins@[j] == with_bits_per_pix(old(self).input_pins@[j]),
                forall|j: int| i <= j < n ==> self.input_pins@[j] == old(self).input_pins@[j],
                self.isa_cfg == old(self).isa_cfg,
                self.crop == old(self).crop,
                self.output_pins@ == old(self).output_pins@,
                self.compfmt == old(self).compfmt,
                self.send_irq_sof_discarded == old(self).send_irq_sof_discarded,
                self.send_irq_eof_discarded == old(self).send_irq_eof_discarded,
                self.send_resp_sof_discarded == old(self).send_resp_sof_discarded,
                self.send_resp_eof_discarded == old(self).send_resp_eof_discarded,
                self.src == old(self).src,
                self.vc == old(self).vc,
                self.isl_use == old(self).isl_use,
            decreases n - i,
        {
            let mut pin = self.input_pins[i];
            pin.bits_per_pix = bits_per_pixel(pin.dt) as u8;
            self.input_pins.set(i, pin);
            i += 1;
        }
        assert(self.input_pins@ =~= old(self).input_pins@.map_values(|p: InputPinInfo| with_bits_per_pix(p)));
    }
}

impl Marshal for StreamCfgData {
    const SERIALIZED_SIZE: usize = SIZEOF_STREAM_CFG_DATA;

    open spec fn spec_validate(&self) -> Result<()> {
        spec_validate_cfg(self@)
    }

    open spec fn spec_chunks(&self) -> Seq<Seq<u8>> {
        self.isa_cfg.spec_chunks() + slot_chunks(self.crop@, N_IPU_FW_ISYS_CROPPING_LOCATION as nat)
            + slot_chunks(self.input_pins@, INTEL_IPU4_MAX_IPINS as nat) + slot_chunks(
            self.output_pins@,
            INTEL_IPU4_MAX_OPINS as nat,
        ) + cfg_tail_chunks(self@)
    }

    open spec fn spec_read(s: Seq<u8>, pos: usize) -> Result<(StreamCfgDataView, usize)> {
        match IsaConfig::spec_read(s, pos) {
            Err(e) => Err(e),
            Ok((isa_cfg, p)) => match read_seq::<Cropping>(s, p, N_IPU_FW_ISYS_CROPPING_LOCATION as nat) {
                Err(e) => Err(e),
                Ok((crop, p)) => match read_seq::<InputPinInfo>(s, p, INTEL_IPU4_MAX_IPINS as nat) {
                    Err(e) => Err(e),
                    Ok((all_inputs, p)) => match read_seq::<OutputPinInfo>(s, p, INTEL_IPU4_MAX_OPINS as nat) {
                        Err(e) => Err(e),
                        Ok((all_outputs, p)) => match rd_u32(s, p) {
                            Err(e) => Err(e),
                            Ok((compfmt, p)) => match rd_u8(s, p) {
                                Err(e) => Err(e),
                                Ok((nof_input_pins, p)) => match rd_u8(s, p) {
                                    Err(e) => Err(e),
                                    Ok((nof_output_pins, p)) => match rd_u8(s, p) {
                                        Err(e) => Err(e),
                                        Ok((irq_sof, p)) => match rd_u8(s, p) {
                                            Err(e) => Err(e),
                                            Ok((irq_eof, p)) => match rd_u8(s, p) {
                                                Err(e) => Err(e),
                                                Ok((resp_sof, p)) => match rd_u8(s, p) {
                                                    Err(e) => Err(e),
                                                    Ok((resp_eof, p)) => match rd_u8(s, p) {
                                                        Err(e) => Err(e),
                                                        Ok((src, p)) => match rd_u8(s, p) {
                                                            Err(e) => Err(e),
                                                            Ok((vc, p)) => match rd_u8(s, p) {
                                                                Err(e) => Err(e),
                                                                Ok((raw, p)) => match IslUse::spec_from_u32(raw as u32) {
                                                                    Err(e) => Err(e),
                                                                    Ok(isl_use) => match rd_take(s, p, 3) {
                                                                        Err(e) => Err(e),
                                                                        Ok(p) => if nof_input_pins as usize > INTEL_IPU4_MAX_IPINS {
                                                                            Err(Error::TooMany {
                                                                                field: "nof_input_pins",
                                                                                value: nof_input_pins as usize,
                                                                                max: INTEL_IPU4_MAX_IPINS,
                                                                            })
                                                                        } else if nof_output_pins as usize > INTEL_IPU4_MAX_OPINS {
                                                                            Err(Error::TooMany {
                                                                                field: "nof_output_pins",
                                                                                value: nof_output_pins as usize,
                                                                                max: INTEL_IPU4_MAX_OPINS,
                                                                            })
                                                                        } else {
                                                                            Ok((StreamCfgDataView {
                                                                                isa_cfg,
                                                                                crop,
                                                                                input_pins: all_inputs.take(nof_input_pins as int),
                                                                                output_pins: all_outputs.take(nof_output_pins as int),
                                                                                compfmt,
                                                                                send_irq_sof_discarded: irq_sof != 0,
                                                                                send_irq_eof_discarded: irq_eof != 0,
                                                                                send_resp_sof_discarded: resp_sof != 0,
                                                                                send_resp_eof_discarded: resp_eof != 0,
                                                                                src,
                                                                                vc,
                                                                                isl_use,
                                                                            }, p))
                                                                        },
                                                                    },
                                                                },
                                                            },
                                                        },
                                                    },
                                                },
                                            },
                                        },
                                    },
                                },
                            },
                        },
                    },
                },
            },
        }
    }

    open spec fn spec_normalize(&self) -> StreamCfgDataView {
        self@
    }

    fn validate(&self) -> (r: Result<()>) {
        if self.input_pins.len() > INTEL_IPU4_MAX_IPINS {
            return Err(Error::TooMany { field: "input_pins", value: self.input_pins.len(), max: INTEL_IPU4_MAX_IPINS });
        }
        if self.output_pins.len() > INTEL_IPU4_MAX_OPINS {
            return Err(Error::TooMany { field: "output_pins", value: self.output_pins.len(), max: INTEL_IPU4_MAX_OPINS });
        }
        Ok(())
    }

    fn chunks(&self) -> (r: Vec<Vec<u8>>) {
        let mut v = self.isa_cfg.chunks();
        let mut c = slot_chunks_of(&self.crop, N_IPU_FW_ISYS_CROPPING_LOCATION);
        v.append(&mut c);
        let mut c = slot_chunks_of(self.input_pins.as_slice(), INTEL_IPU4_MAX_IPINS);
        v.append(&mut c);
        let mut c = slot_chunks_of(self.output_pins.as_slice(), INTEL_IPU4_MAX_OPINS);
        v.append(&mut c);
        v.push(chunk_u32(self.compfmt));
        v.push(chunk_u8(self.nof_input_pins()));
        v.push(chunk_u8(self.nof_output_pins()));
        v.push(chunk_u8(flag_u8(self.send_irq_sof_discarded)));
        v.push(chunk_u8(flag_u8(self.send_irq_eof_discarded)));
        v.push(chunk_u8(flag_u8(self.send_resp_sof_discarded)));
        v.push(chunk_u8(flag_u8(self.send_resp_eof_discarded)));
        v.push(chunk_u8(self.src));
        v.push(chunk_u8(self.vc));
        v.push(chunk_u8(self.isl_use.as_u32() as u8));
        v.push(chunk_pad(3));
        proof {
            assert(crate::fw_msgs::bytes::chunks_view(v@) =~= self.spec_chunks());
        }
        v
    }

    fn read_at(buf: &[u8], pos: usize) -> (r: Result<(Self, usize)>) {
        proof { lemma_record_sizes(); }
        let (isa_cfg, p) = IsaConfig::read_at(buf, pos)?;
        let (crops, p) = read_items::<Cropping>(buf, p, N_IPU_FW_ISYS_CROPPING_LOCATION)?;
        let crop = [crops[0], crops[1], crops[2], crops[3]];
        proof { assert(crop@ =~= crops@.map_values(|x: Cropping| x@)); }
        let (mut input_pins, p) = read_items::<InputPinInfo>(buf, p, INTEL_IPU4_MAX_IPINS)?;
        let (mut output_pins, p) = read_items::<OutputPinInfo>(buf, p, INTEL_IPU4_MAX_OPINS)?;
        let (compfmt, p) = read_u32(buf, p)?;
        let (nof_input_pins, p) = read_u8(buf, p)?;
        let (nof_output_pins, p) = read_u8(buf, p)?;
        let (irq_sof, p) = read_u8(buf, p)?;
        let (irq_eof, p) = read_u8(buf, p)?;
        let (resp_sof, p) = read_u8(buf, p)?;
        let (resp_eof, p) = read_u8(buf, p)?;
        let (src, p) = read_u8(buf, p)?;
        let (vc, p) = read_u8(buf, p)?;
        let (raw, p) = read_u8(buf, p)?;
        let isl_use = IslUse::from_u32(raw as u32)?;
        let p = skip(buf, p, 3)?;
        if nof_input_pins as usize > INTEL_IPU4_MAX_IPINS {
            return Err(Error::TooMany {
                field: "nof_input_pins",
                value: nof_input_pins as usize,
                max: INTEL_IPU4_MAX_IPINS,
            });
        }
        if nof_output_pins as usize > INTEL_IPU4_MAX_OPINS {
            return Err(Error::TooMany {
                field: "nof_output_pins",
                value: nof_output_pins as usize,
                max: INTEL_IPU4_MAX_OPINS,
            });
        }
        let ghost all_inputs = input_pins@;
        let ghost all_outputs = output_pins@;
        input_pins.truncate(nof_input_pins as usize);
        output_pins.truncate(nof_output_pins as usize);
        proof {
            assert(input_pins@ =~= all_inputs.map_values(|x: InputPinInfo| x@).take(nof_input_pins as int));
            assert(output_pins@ =~= all_outputs.map_values(|x: OutputPinInfo| x@).take(nof_output_pins as int));
        }
        Ok((
            StreamCfgData {
                isa_cfg,
                crop,
                input_pins,
                output_pins,
                compfmt,
                send_irq_sof_discarded: irq_sof != 0,
                send_irq_eof_discarded: irq_eof != 0,
                send_resp_sof_discarded: resp_sof != 0,
                send_resp_eof_discarded: resp_eof != 0,
                src,
                vc,
                isl_use,
            },
            p,
        ))
    }

    proof fn lemma_size_bound() {
    }

    proof fn lemma_reserialize(&self, other: &Self) {
        assert(other.crop@ == self.crop@);
        assert(other.input_pins@ == self.input_pins@);
        assert(other.output_pins@ == self.output_pins@);
    }

    proof fn lemma_size(&self) {
        broadcast use group_chunks;

        lemma_record_sizes();
        self.isa_cfg.lemma_size();
        lemma_slots_len(self.crop@, N_IPU_FW_ISYS_CROPPING_LOCATION as nat);
        lemma_slots_len(self.input_pins@, INTEL_IPU4_MAX_IPINS as nat);
        lemma_slots_len(self.output_pins@, INTEL_IPU4_MAX_OPINS as nat);
    }

    proof fn lemma_read_back(&self, s: Seq<u8>, pos: usize) {
        let crop = slot_values(self.crop@, N_IPU_FW_ISYS_CROPPING_LOCATION as nat, zero_cropping());
        let ins = slot_values(self.input_pins@, INTEL_IPU4_MAX_IPINS as nat, zero_input_pin());
        let outs = slot_values(self.output_pins@, INTEL_IPU4_MAX_OPINS as nat, zero_output_pin());
        lemma_record_sizes();
        lemma_zero_records();
        lemma_cfg_parts(self, s, pos);
        self.isa_cfg.lemma_read_back(s, pos);
        lemma_read_slots(self.crop@, N_IPU_FW_ISYS_CROPPING_LOCATION as nat, zero_cropping(), s, (pos + 20) as usize);
        lemma_read_slots(self.input_pins@, INTEL_IPU4_MAX_IPINS as nat, zero_input_pin(), s, (pos + 84) as usize);
        lemma_read_slots(self.output_pins@, INTEL_IPU4_MAX_OPINS as nat, zero_output_pin(), s, (pos + 132) as usize);
        assert(crop =~= self.crop@);
        assert(ins.take(self.input_pins@.len() as int) =~= self.input_pins@);
        assert(outs.take(self.output_pins@.len() as int) =~= self.output_pins@);
        lemma_read_cfg_tail(self@, s, (pos + 276) as usize);
        lemma_cfg_read_assemble(self@, s, pos, crop, ins, outs);
    }
}

/// Reading a configuration whose parts read back as `v`'s yields `v`.
proof fn lemma_cfg_read_assemble(
    v: StreamCfgDataView,
    s: Seq<u8>,
    pos: usize,
    crop: Seq<Cropping>,
    ins: Seq<InputPinInfo>,
    outs: Seq<OutputPinInfo>,
)
    requires
        pos + 292 <= usize::MAX,
        spec_validate_cfg(v) is Ok,
        IsaConfig::spec_read(s, pos) == Ok::<(IsaConfig, usize), Error>((v.isa_cfg, (pos + 20) as usize)),
        read_seq::<Cropping>(s, (pos + 20) as usize, 4) == Ok::<(Seq<Cropping>, usize), Error>((crop, (pos + 84) as usize)),
        read_seq::<InputPinInfo>(s, (pos + 84) as usize, 4) == Ok::<(Seq<InputPinInfo>, usize), Error>((ins, (pos + 132) as usize)),
        read_seq::<OutputPinInfo>(s, (pos + 132) as usize, 6) == Ok::<(Seq<OutputPinInfo>, usize), Error>((outs, (pos + 276) as usize)),
        crop == v.crop,
        ins.take(v.input_pins.len() as int) == v.input_pins,
        outs.take(v.output_pins.len() as int) == v.output_pins,
        rd_u32(s, (pos + 276) as usize) == Ok::<(u32, usize), Error>((v.compfmt, (pos + 280) as usize)),
        rd_u8(s, (pos + 280) as usize) == Ok::<(u8, usize), Error>((v.input_pins.len() as u8, (pos + 281) as usize)),
        rd_u8(s, (pos + 281) as usize) == Ok::<(u8, usize), Error>((v.output_pins.len() as u8, (pos + 282) as usize)),
        rd_u8(s, (pos + 282) as usize) == Ok::<(u8, usize), Error>((flag_byte(v.send_irq_sof_discarded), (pos + 283) as usize)),
        rd_u8(s, (pos + 283) as usize) == Ok::<(u8, usize), Error>((flag_byte(v.send_irq_eof_discarded), (pos + 284) as usize)),
        rd_u8(s, (pos + 284) as usize) == Ok::<(u8, usize), Error>((flag_byte(v.send_resp_sof_discarded), (pos + 285) as usize)),
        rd_u8(s, (pos + 285) as usize) == Ok::<(u8, usize), Error>((flag_byte(v.send_resp_eof_discarded), (pos + 286) as usize)),
        rd_u8(s, (pos + 286) as usize) == Ok::<(u8, usize), Error>((v.src, (pos + 287) as usize)),
        rd_u8(s, (pos + 287) as usize) == Ok::<(u8, usize), Error>((v.vc, (pos + 288) as usize)),
        rd_u8(s, (pos + 288) as usize) == Ok::<(u8, usize), Error>((v.isl_use.spec_as_u32() as u8, (pos + 289) as usize)),
        rd_take(s, (pos + 289) as usize, 3) == Ok::<usize, Error>((pos + 292) as usize),
        IslUse::spec_from_u32((v.isl_use.spec_as_u32() as u8) as u32) == Ok::<IslUse, Error>(v.isl_use),
    ensures
        StreamCfgData::spec_read(s, pos) == Ok::<(StreamCfgDataView, usize), Error>((v, (pos + 292) as usize)),
{
}

/// Where the parts of a serialized configuration lie: the ISA configuration
/// at 0, the croppings at 20, the input slots at 84, the output slots at 132
/// and the closing scalars at 276.
proof fn lemma_cfg_parts(cfg: &StreamCfgData, s: Seq<u8>, pos: usize)
    requires
        cfg.spec_validate() is Ok,
        holds_at(s, pos as int, flat(cfg.spec_chunks())),
    ensures
        holds_at(s, pos as int, flat(cfg.isa_cfg.spec_chunks())),
        holds_at(s, pos + 20, flat(slot_chunks(cfg.crop@, N_IPU_FW_ISYS_CROPPING_LOCATION as nat))),
        holds_at(s, pos + 84, flat(slot_chunks(cfg.input_pins@, INTEL_IPU4_MAX_IPINS as nat))),
        holds_at(s, pos + 132, flat(slot_chunks(cfg.output_pins@, INTEL_IPU4_MAX_OPINS as nat))),
        holds_at(s, pos + 276, flat(cfg_tail_chunks(cfg@))),
{
    let a = cfg.isa_cfg.spec_chunks();
    let b = slot_chunks(cfg.crop@, N_IPU_FW_ISYS_CROPPING_LOCATION as nat);
    let c = slot_chunks(cfg.input_pins@, INTEL_IPU4_MAX_IPINS as nat);
    let d = slot_chunks(cfg.output_pins@, INTEL_IPU4_MAX_OPINS as nat);
    let e = cfg_tail_chunks(cfg@);
    lemma_record_sizes();
    cfg.isa_cfg.lemma_size();
    lemma_slots_len(cfg.crop@, N_IPU_FW_ISYS_CROPPING_LOCATION as nat);
    lemma_slots_len(cfg.input_pins@, INTEL_IPU4_MAX_IPINS as nat);
    lemma_slots_len(cfg.output_pins@, INTEL_IPU4_MAX_OPINS as nat);
    lemma_flat_append(a, b);
    lemma_flat_append(a + b, c);
    lemma_flat_append(a + b + c, d);
    lemma_holds_chunks_split(s, pos as int, a + b + c + d, e);
    lemma_holds_chunks_split(s, pos as int, a + b + c, d);
    lemma_holds_chunks_split(s, pos as int, a + b, c);
    lemma_holds_chunks_split(s, pos as int, a, b);
}

/// The closing scalar fields of a valid configuration read back as written.
proof fn lemma_read_cfg_tail(v: StreamCfgDataView, s: Seq<u8>, p: usize)
    requires
        spec_validate_cfg(v) is Ok,
        p + 16 <= usize::MAX,
        holds_at(s, p as int, flat(cfg_tail_chunks(v))),
    ensures
        rd_u32(s, p) == Ok::<(u32, usize), Error>((v.compfmt, (p + 4) as usize)),
        rd_u8(s, (p + 4) as usize) == Ok::<(u8, usize), Error>((v.input_pins.len() as u8, (p + 5) as usize)),
        rd_u8(s, (p + 5) as usize) == Ok::<(u8, usize), Error>((v.output_pins.len() as u8, (p + 6) as usize)),
        rd_u8(s, (p + 6) as usize) == Ok::<(u8, usize), Error>((flag_byte(v.send_irq_sof_discarded), (p + 7) as usize)),
        rd_u8(s, (p + 7) as usize) == Ok::<(u8, usize), Error>((flag_byte(v.send_irq_eof_discarded), (p + 8) as usize)),
        rd_u8(s, (p + 8) as usize) == Ok::<(u8, usize), Error>((flag_byte(v.send_resp_sof_discarded), (p + 9) as usize)),
        rd_u8(s, (p + 9) as usize) == Ok::<(u8, usize), Error>((flag_byte(v.send_resp_eof_discarded), (p + 10) as usize)),
        rd_u8(s, (p + 10) as usize) == Ok::<(u8, usize), Error>((v.src, (p + 11) as usize)),
        rd_u8(s, (p + 11) as usize) == Ok::<(u8, usize), Error>((v.vc, (p + 12) as usize)),
        rd_u8(s, (p + 12) as usize) == Ok::<(u8, usize), Error>((v.isl_use.spec_as_u32() as u8, (p + 13) as usize)),
        rd_take(s, (p + 13) as usize, 3) == Ok::<usize, Error>((p + 16) as usize),
        IslUse::spec_from_u32((v.isl_use.spec_as_u32() as u8) as u32) == Ok::<IslUse, Error>(v.isl_use),
{
    broadcast use group_chunks, group_enum_roundtrip;

    assert((v.isl_use.spec_as_u32() as u8) as u32 == v.isl_use.spec_as_u32());
}

/// Builder of [`StreamCfgData`] with range-checked pin insertion.
#[derive(Debug)]
pub struct StreamCfgBuilder {
    inner: StreamCfgData,
}

impl StreamCfgBuilder {
    /// The pin lists never outgrow the ABI arrays.
    #[verifier::type_invariant]
    spec fn inv(self) -> bool {
        &&& self.inner.input_pins@.len() <= INTEL_IPU4_MAX_IPINS
        &&& self.inner.output_pins@.len() <= INTEL_IPU4_MAX_OPINS
    }
}

impl View for StreamCfgBuilder {
    type V = StreamCfgDataView;

    closed spec fn view(&self) -> StreamCfgDataView {
        self.inner@
    }
}

impl Default for StreamCfgBuilder {
    fn default() -> (r: Self)
        ensures
            r@ == default_stream_cfg(),
    {
        StreamCfgBuilder { inner: StreamCfgData::default() }
    }
}

impl StreamCfgBuilder {
    /// Set the ISA configuration.
    pub fn isa_cfg(self, isa_cfg: IsaConfig) -> (r: Self)
        ensures
            r@ == (StreamCfgDataView { isa_cfg, ..self@ }),
    {
        proof { use_type_invariant(&self); }
        let mut inner = self.inner;
        inner.isa_cfg = isa_cfg;
        StreamCfgBuilder { inner }
    }

    /// Set the cropping descriptor at `location`; a location past
    /// `N_IPU_FW_ISYS_CROPPING_LOCATION` is rejected.
    pub fn crop(self, location: usize, crop: Cropping) -> (r: Result<Self>)
        ensures
            location < N_IPU_FW_ISYS_CROPPING_LOCATION ==> (r matches Ok(b) && b@ == (StreamCfgDataView {
                crop: self@.crop.update(location as int, crop),
                ..self@
            })),
            location >= N_IPU_FW_ISYS_CROPPING_LOCATION ==> r == Err::<Self, Error>(
                Error::IndexOutOfRange { field: "crop", index: location, len: N_IPU_FW_ISYS_CROPPING_LOCATION },
            ),
    {
        if location >= N_IPU_FW_ISYS_CROPPING_LOCATION {
            return Err(Error::IndexOutOfRange { field: "crop", index: location, len: N_IPU_FW_ISYS_CROPPING_LOCATION });
        }
        proof { use_type_invariant(&self); }
        let mut inner = self.inner;
        inner.crop[location] = crop;
        proof { assert(inner.crop@ =~= self@.crop.update(location as int, crop)); }
        Ok(StreamCfgBuilder { inner })
    }

    /// Append an input pin; a fifth pin exceeds `INTEL_IPU4_MAX_IPINS` and is
    /// rejected with the count it would have made.
    pub fn add_input_pin(self, pin: InputPinInfo) -> (r: Result<Self>)
        ensures
            self@.input_pins.len() < INTEL_IPU4_MAX_IPINS ==> (r matches Ok(b) && b@ == (StreamCfgDataView {
                input_pins: self@.input_pins.push(pin),
                ..self@
            })),
            self@.input_pins.len() >= INTEL_IPU4_MAX_IPINS ==> r == Err::<Self, Error>(
                Error::TooMany {
                    field: "input_pins",
                    value: (self@.input_pins.len() + 1) as usize,
                    max: INTEL_IPU4_MAX_IPINS,
                },
            ),
    {
        proof { use_type_invariant(&self); }
        if self.inner.input_pins.len() >= INTEL_IPU4_MAX_IPINS {
            return Err(Error::TooMany {
                field: "input_pins",
                value: self.inner.input_pins.len() + 1,
                max: INTEL_IPU4_MAX_IPINS,
            });
        }
        let mut inner = self.inner;
        inner.input_pins.push(pin);
        Ok(StreamCfgBuilder { inner })
    }

    /// Append an output pin; a seventh pin exceeds `INTEL_IPU4_MAX_OPINS` and
    /// is rejected with the count it would have made.
    pub fn add_output_pin(self, pin: OutputPinInfo) -> (r: Result<Self>)
        ensures
            self@.output_pins.len() < INTEL_IPU4_MAX_OPINS ==> (r matches Ok(b) && b@ == (StreamCfgDataView {
                output_pins: self@.output_pins.push(pin),
                ..self@
            })),
            self@.output_pins.len() >= INTEL_IPU4_MAX_OPINS ==> r == Err::<Self, Error>(
                Error::TooMany {
                    field: "output_pins",
                    value: (self@.output_pins.len() + 1) as usize,
                    max: INTEL_IPU4_MAX_OPINS,
                },
            ),
    {
        proof { use_type_invariant(&self); }
        if self.inner.output_pins.len() >= INTEL_IPU4_MAX_OPINS {
            return Err(Error::TooMany {
                field: "output_pins",
                value: self.inner.output_pins.len() + 1,
                max: INTEL_IPU4_MAX_OPINS,
            });
        }
        let mut inner = self.inner;
        inner.output_pins.push(pin);
        Ok(StreamCfgBuilder { inner })
    }

    pub fn compfmt(self, compfmt: u32) -> (r: Self)
        ensures
            r@ == (StreamCfgDataView { compfmt, ..self@ }),
    {
        proof { use_type_invariant(&self); }
        let mut inner = self.inner;
        inner.compfmt = compfmt;
        StreamCfgBuilder { inner }
    }

    pub fn src(self, src: u8) -> (r: Self)
        ensures
            r@ == (StreamCfgDataView { src, ..self@ }),
    {
        proof { use_type_invariant(&self); }
        let mut inner = self.inner;
        inner.src = src;
        StreamCfgBuilder { inner }
    }

    pub fn vc(self, vc: u8) -> (r: Self)
        ensures
            r@ == (StreamCfgDataView { vc, ..self@ }),
    {
        proof { use_type_invariant(&self); }
        let mut inner = self.inner;
        inner.vc = vc;
        StreamCfgBuilder { inner }
    }

    pub fn isl_use(self, isl_use: IslUse) -> (r: Self)
        ensures
            r@ == (StreamCfgDataView { isl_use, ..self@ }),
    {
        proof { use_type_invariant(&self); }
        let mut inner = self.inner;
        inner.isl_use = isl_use;
        StreamCfgBuilder { inner }
    }

    pub fn send_irq_sof_discarded(self, v: bool) -> (r: Self)
        ensures
            r@ == (StreamCfgDataView { send_irq_sof_discarded: v, ..self@ }),
    {
        proof { use_type_invariant(&self); }
        let mut inner = self.inner;
        inner.send_irq_sof_discarded = v;
        StreamCfgBuilder { inner }
    }

    pub fn send_irq_eof_discarded(self, v: bool) -> (r: Self)
        ensures
            r@ == (StreamCfgDataView { send_irq_eof_discarded: v, ..self@ }),
    {
        proof { use_type_invariant(&self); }
        let mut inner = self.inner;
        inner.send_irq_eof_discarded = v;
        StreamCfgBuilder { inner }
    }

    pub fn send_resp_sof_discarded(self, v: bool) -> (r: Self)
        ensures
            r@ == (StreamCfgDataView { send_resp_sof_discarded: v, ..self@ }),
    {
        proof { use_type_invariant(&self); }
        let mut inner = self.inner;
        inner.send_resp_sof_discarded = v;
        StreamCfgBuilder { inner }
    }

    pub fn send_resp_eof_discarded(self, v: bool) -> (r: Self)
        ensures
            r@ == (StreamCfgDataView { send_resp_eof_discarded: v, ..self@ }),
    {
        proof { use_type_invariant(&self); }
        let mut inner = self.inner;
        inner.send_resp_eof_discarded = v;
        StreamCfgBuilder { inner }
    }

    /// When `enable` is set, fill each input pin's `bits_per_pix` from its data
    /// type, as [`StreamCfgData::set_fw_params`] does.
    pub fn auto_bits_per_pix(self, enable: bool) -> (r: Self)
        ensures
            enable ==> r@ == (StreamCfgDataView {
                input_pins: self@.input_pins.map_values(|p: InputPinInfo| with_bits_per_pix(p)),
                ..self@
            }),
            !enable ==> r@ == self@,
    {
        proof { use_type_invariant(&self); }
        let mut inner = self.inner;
        if enable {
            inner.set_fw_params();
        }
        StreamCfgBuilder { inner }
    }

    /// Validate and produce the configuration. The builder never holds more
    /// pins than the ABI arrays, so this always succeeds.
    pub fn build(self) -> (r: Result<StreamCfgData>)
        ensures
            spec_validate_cfg(self@) is Ok,
            r matches Ok(c) && c@ == self@,
    {
        proof { use_type_invariant(&self); }
        match self.inner.validate() {
            Err(e) => Err(e),
            Ok(()) => Ok(self.inner),
        }
    }
}

/// Byte layout of a stream configuration within the pin limits: the ISA
/// configuration at 0..20; cropping `i` at `20 + 16 * i` (top, left, bottom,
/// right); input-pin slot `i` at `84 + 12 * i` and output-pin slot `j` at
/// `132 + 24 * j` (zeros for an unused slot); the compression format at
/// 276..280; the input and output pin counts at 280 and 281; the flags
/// send_irq_sof_discarded, send_irq_eof_discarded, send_resp_sof_discarded,
/// send_resp_eof_discarded at 282..286 (1 when set, else 0); src at 286, vc
/// at 287, the ISL mode at 288; zeros at 289..292.
pub proof fn lemma_stream_cfg_layout(c: StreamCfgData)
    requires
        c.input_pins@.len() <= INTEL_IPU4_MAX_IPINS,
        c.output_pins@.len() <= INTEL_IPU4_MAX_OPINS,
    ensures
        flat(c.spec_chunks()).len() == 292,
        flat(c.spec_chunks()).subrange(0, 20) == flat(c.isa_cfg.spec_chunks()),
        forall|i: int|
            0 <= i < 4 ==> #[trigger] flat(c.spec_chunks()).subrange(20 + 16 * i, 36 + 16 * i) == le_u32_bytes(
                c.crop@[i].top_offset as u32,
            ) + le_u32_bytes(c.crop@[i].left_offset as u32) + le_u32_bytes(c.crop@[i].bottom_offset as u32)
                + le_u32_bytes(c.crop@[i].right_offset as u32),
        forall|i: int|
            0 <= i < 4 ==> #[trigger] flat(c.spec_chunks()).subrange(84 + 12 * i, 96 + 12 * i) == (if i
                < c.input_pins@.len() {
                le_u32_bytes(c.input_pins@[i].input_res.width) + le_u32_bytes(c.input_pins@[i].input_res.height)
                    + seq![c.input_pins@[i].dt, c.input_pins@[i].mipi_store_mode, c.input_pins@[i].bits_per_pix]
                    + c_pad(1)
            } else {
                c_pad(12)
            }),
        forall|j: int|
            0 <= j < 6 ==> #[trigger] flat(c.spec_chunks()).subrange(132 + 24 * j, 156 + 24 * j) == (if j
                < c.output_pins@.len() {
                le_u32_bytes(c.output_pins@[j].output_res.width) + le_u32_bytes(c.output_pins@[j].output_res.height)
                    + le_u32_bytes(c.output_pins@[j].stride) + le_u32_bytes(c.output_pins@[j].watermark_in_lines) + seq![
                    c.output_pins@[j].send_irq,
                    c.output_pins@[j].input_pin_id,
                    c.output_pins@[j].pt,
                    c.output_pins@[j].ft,
                    c.output_pins@[j].online,
                ] + c_pad(3)
            } else {
                c_pad(24)
            }),
        flat(c.spec_chunks()).subrange(276, 280) == le_u32_bytes(c.compfmt),
        flat(c.spec_chunks())[280] == c.input_pins@.len(),
        flat(c.spec_chunks())[281] == c.output_pins@.len(),
        flat(c.spec_chunks())[282] == (if c.send_irq_sof_discarded { 1u8 } else { 0u8 }),
        flat(c.spec_chunks())[283] == (if c.send_irq_eof_discarded { 1u8 } else { 0u8 }),
        flat(c.spec_chunks())[284] == (if c.send_resp_sof_discarded { 1u8 } else { 0u8 }),
        flat(c.spec_chunks())[285] == (if c.send_resp_eof_discarded { 1u8 } else { 0u8 }),
        flat(c.spec_chunks())[286] == c.src,
        flat(c.spec_chunks())[287] == c.vc,
        flat(c.spec_chunks())[288] == c.isl_use.spec_as_u32(),
        flat(c.spec_chunks()).subrange(289, 292) == c_pad(3),
{
    broadcast use group_chunks;
    lemma_record_sizes();
    let isa = c.isa_cfg.spec_chunks();
    let cr = slot_chunks(c.crop@, 4);
    let ip = slot_chunks(c.input_pins@, 4);
    let op = slot_chunks(c.output_pins@, 6);
    let tl = cfg_tail_chunks(c@);
    assert(c.spec_chunks() == isa + cr + ip + op + tl);
    assert(all_valid(c.crop@));
    assert(all_valid(c.input_pins@));
    assert(all_valid(c.output_pins@));
    c.isa_cfg.lemma_size();
    lemma_slots_len(c.crop@, 4);
    lemma_slots_len(c.input_pins@, 4);
    lemma_slots_len(c.output_pins@, 6);
    lemma_flat_single(c_u32(c.compfmt));
    let fi = flat(isa);
    let fc = flat(cr);
    let fp = flat(ip);
    let fo = flat(op);
    let ft = flat(tl);
    assert(ft =~= le_u32_bytes(c.compfmt) + seq![
        c.input_pins@.len() as u8,
        c.output_pins@.len() as u8,
        flag_byte(c.send_irq_sof_discarded),
        flag_byte(c.send_irq_eof_discarded),
        flag_byte(c.send_resp_sof_discarded),
        flag_byte(c.send_resp_eof_discarded),
        c.src,
        c.vc,
        c.isl_use.spec_as_u32() as u8,
    ] + c_pad(3));
    let b = flat(c.spec_chunks());
    assert(b == fi + fc + fp + fo + ft);
    assert(b.subrange(0, 20) =~= fi);
    assert forall|i: int| 0 <= i < 4 implies #[trigger] b.subrange(20 + 16 * i, 36 + 16 * i) == le_u32_bytes(
        c.crop@[i].top_offset as u32,
    ) + le_u32_bytes(c.crop@[i].left_offset as u32) + le_u32_bytes(c.crop@[i].bottom_offset as u32) + le_u32_bytes(
        c.crop@[i].right_offset as u32,
    ) by {
        lemma_slot_bytes(c.crop@, 4, i);
        lemma_cropping_layout(c.crop@[i]);
        assert(b.subrange(20 + 16 * i, 36 + 16 * i) =~= fc.subrange(16 * i, 16 * i + 16));
    }
    assert forall|i: int| 0 <= i < 4 implies #[trigger] b.subrange(84 + 12 * i, 96 + 12 * i) == (if i
        < c.input_pins@.len() {
        le_u32_bytes(c.input_pins@[i].input_res.width) + le_u32_bytes(c.input_pins@[i].input_res.height) + seq![
            c.input_pins@[i].dt,
            c.input_pins@[i].mipi_store_mode,
            c.input_pins@[i].bits_per_pix,
        ] + c_pad(1)
    } else {
        c_pad(12)
    }) by {
        lemma_slot_bytes(c.input_pins@, 4, i);
        if i < c.input_pins@.len() {
            lemma_input_pin_layout(c.input_pins@[i]);
        }
        assert(b.subrange(84 + 12 * i, 96 + 12 * i) =~= fp.subrange(12 * i, 12 * i + 12));
    }
    assert forall|j: int| 0 <= j < 6 implies #[trigger] b.subrange(132 + 24 * j, 156 + 24 * j) == (if j
        < c.output_pins@.len() {
        le_u32_bytes(c.output_pins@[j].output_res.width) + le_u32_bytes(c.output_pins@[j].output_res.height)
            + le_u32_bytes(c.output_pins@[j].stride) + le_u32_bytes(c.output_pins@[j].watermark_in_lines) + seq![
            c.output_pins@[j].send_irq,
            c.output_pins@[j].input_pin_id,
            c.output_pins@[j].pt,
            c.output_pins@[j].ft,
            c.output_pins@[j].online,
        ] + c_pad(3)
    } else {
        c_pad(24)
    }) by {
        lemma_slot_bytes(c.output_pins@, 6, j);
        if j < c.output_pins@.len() {
            lemma_output_pin_layout(c.output_pins@[j]);
        }
        assert(b.subrange(132 + 24 * j, 156 + 24 * j) =~= fo.subrange(24 * j, 24 * j + 24));
    }
    assert(b.subrange(276, 280) =~= le_u32_bytes(c.compfmt));
    assert(b.subrange(289, 292) =~= c_pad(3));
}

/// Reading a stream configuration. A configuration within the pin limits
/// serializes to 292 bytes that read back as itself. Any buffer shorter than
/// 292 bytes is too small. In a longer one the ISL mode byte (offset 288) is
/// checked first, then the input-pin count (offset 280, at most 4), then the
/// output-pin count (offset 281, at most 6); past those checks the read
/// succeeds, with as many pins as the counts give, the compression format
/// of offsets 276..280 and the ISL mode of offset 288.
pub proof fn lemma_stream_cfg_read(c: StreamCfgData, s: Seq<u8>)
    ensures
        c.input_pins@.len() <= INTEL_IPU4_MAX_IPINS && c.output_pins@.len() <= INTEL_IPU4_MAX_OPINS ==> {
            &&& flat(c.spec_chunks()).len() == 292
            &&& spec_deserialize::<StreamCfgData>(flat(c.spec_chunks())) == Ok::<StreamCfgDataView, Error>(c@)
        },
        s.len() < 292 ==> spec_deserialize::<StreamCfgData>(s) == Err::<StreamCfgDataView, Error>(
            Error::BufferTooSmall { expected: 292, actual: s.len() as usize },
        ),
        s.len() >= 292 && s[288] > 2 ==> spec_deserialize::<StreamCfgData>(s) == Err::<StreamCfgDataView, Error>(
            Error::InvalidEnum { field: "isl_use", value: s[288] as u32 },
        ),
        s.len() >= 292 && s[288] <= 2 && s[280] > 4 ==> spec_deserialize::<StreamCfgData>(s) == Err::<
            StreamCfgDataView,
            Error,
        >(Error::TooMany { field: "nof_input_pins", value: s[280] as usize, max: 4 }),
        s.len() >= 292 && s[288] <= 2 && s[280] <= 4 && s[281] > 6 ==> spec_deserialize::<StreamCfgData>(s) == Err::<
            StreamCfgDataView,
            Error,
        >(Error::TooMany { field: "nof_output_pins", value: s[281] as usize, max: 6 }),
        s.len() >= 292 && s[288] <= 2 && s[280] <= 4 && s[281] <= 6 ==> (spec_deserialize::<StreamCfgData>(s) matches Ok(d) && {
            &&& d.input_pins.len() == s[280]
            &&& d.output_pins.len() == s[281]
            &&& d.compfmt == le_u32_value(s.subrange(276, 280))
            &&& d.isl_use.spec_as_u32() == s[288]
        }),
{
    if c.input_pins@.len() <= INTEL_IPU4_MAX_IPINS && c.output_pins@.len() <= INTEL_IPU4_MAX_OPINS {
        c.lemma_size();
        lemma_parse_serialized(c);
    }
    if s.len() >= 292 {
        lemma_stream_cfg_records(s);
    }
}

/// In 292 bytes or more, the records in front of a stream configuration's
/// counts read without error, and end at offset 276.
proof fn lemma_stream_cfg_records(s: Seq<u8>)
    requires
        s.len() >= 292,
    ensures
        IsaConfig::spec_read(s, 0) matches Ok((_, q)) && q == 20,
        read_seq::<Cropping>(s, 20, 4) matches Ok((_, q)) && q == 84,
        read_seq::<InputPinInfo>(s, 84, 4) matches Ok((v, q)) && q == 132 && v.len() == 4,
        read_seq::<OutputPinInfo>(s, 132, 6) matches Ok((v, q)) && q == 276 && v.len() == 6,
{
    lemma_record_sizes();
    lemma_read_ok_isa_cfg(s, 0);
    assert forall|x: usize| 20 <= x && x + 16 <= 20 + 4 * 16 implies (#[trigger] Cropping::spec_read(s, x)
        matches Ok((_, q)) && q == x + 16) by {
        lemma_read_ok_cropping(s, x);
    }
    lemma_read_seq_ok::<Cropping>(s, 20, 4);
    assert forall|x: usize| 84 <= x && x + 12 <= 84 + 4 * 12 implies (#[trigger] InputPinInfo::spec_read(s, x)
        matches Ok((_, q)) && q == x + 12) by {
        lemma_read_ok_input_pin(s, x);
    }
    lemma_read_seq_ok::<InputPinInfo>(s, 84, 4);
    lemma_read_seq_len::<InputPinInfo>(s, 84, 4);
    assert forall|x: usize| 132 <= x && x + 24 <= 132 + 6 * 24 implies (#[trigger] OutputPinInfo::spec_read(s, x)
        matches Ok((_, q)) && q == x + 24) by {
        lemma_read_ok_output_pin(s, x);
    }
    lemma_read_seq_ok::<OutputPinInfo>(s, 132, 6);
    lemma_read_seq_len::<OutputPinInfo>(s, 132, 6);
}

/// The serialized size of a StreamCfgData.
pub proof fn lemma_stream_cfg_size()
    ensures
        StreamCfgData::SERIALIZED_SIZE == 292,
{
}

} // verus!

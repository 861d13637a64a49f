//! Message types of the ISYS firmware ABI, their builders, and their
//! serialization.
//!
//! Every message type implements [`Marshal`]: its serialized form is a
//! sequence of field chunks (`spec_chunks`), written in order, and its parse
//! (`spec_read`) reads the fields back in the same order. The ABI struct layout,
//! padding included, is kept byte for byte.

use vstd::prelude::*;
use crate::fw_msgs::bytes::{
    c_i32, c_pad, c_u32, c_u64, c_u8, chunk_i32, chunk_pad, chunk_u32, chunk_u64, chunk_u8,
    chunks_view, flat, flatten, group_chunks, holds_at, le_u32_bytes, le_u32_value, le_u64_bytes, le_u64_value, lemma_flat_single, lemma_holds_chunks_split,
    lemma_le_zero, lemma_write_chunks_fit, rd_i32, rd_take,
    rd_u32, rd_u64, rd_u8, read_i32, read_u32, read_u64, read_u8, skip, splice, write_chunks,
    write_chunks_into,
};
use crate::fw_msgs::enums::{group_enum_roundtrip, IslUse, IsysError, ProxyError, RespType, SendType};
use crate::fw_msgs::error::{Error, Result};
use crate::fw_msgs::ids::{BufferId, CssVirtualAddress, OutputPinId, StreamHandle};
use crate::fw_msgs::layout::{
    INTEL_IPU4_MAX_IPINS, INTEL_IPU4_MAX_OPINS, ISYS_MSG_INDEX, ISYS_PROXY_INDEX,
    N_IPU_FW_ISYS_CROPPING_LOCATION, N_IPU_FW_ISYS_RESOLUTION_INFO, SIZEOF_CROPPING,
    SIZEOF_ERROR_INFO, SIZEOF_FRAME_BUFF_SET, SIZEOF_INPUT_PIN_INFO, SIZEOF_ISA_CFG,
    SIZEOF_OUTPUT_PIN_INFO, SIZEOF_OUTPUT_PIN_PAYLOAD, SIZEOF_PARAM_PIN,
    SIZEOF_PROXY_ERROR_INFO, SIZEOF_PROXY_RESP_INFO, SIZEOF_PROXY_SEND_QUEUE_TOKEN,
    SIZEOF_RESOLUTION, SIZEOF_RESP_INFO, SIZEOF_SEND_QUEUE_TOKEN, SIZEOF_STREAM_CFG_DATA,
};
use crate::fw_msgs::slots::{
    all_valid, is_zero_record, lemma_read_slots, lemma_slots_len, read_items, read_seq, slot_chunks,
    slot_chunks_of, slot_values,
};
use crate::fw_msgs::tables::{bits_per_pixel, spec_bits_per_pixel};

verus! {

broadcast use group_chunks, group_enum_roundtrip;

/// The array whose elements are `s` (when `s` has `N` elements).
pub open spec fn array_of<T, const N: usize>(s: Seq<T>) -> [T; N] {
    choose|a: [T; N]| a@ == s
}

/// An array is the array of its elements.
pub proof fn lemma_array_of<T, const N: usize>(a: [T; N], s: Seq<T>)
    requires
        a@ == s,
    ensures
        array_of::<T, N>(s) == a,
{
    let b = array_of::<T, N>(s);
    assert(b@ == s);
    assert(b@ =~= a@);
}

/// What [`Marshal::deserialize`] returns, by view, for bytes `s` at least
/// `SERIALIZED_SIZE` long.
pub open spec fn spec_parse<T: Marshal>(s: Seq<u8>) -> Result<T::V> {
    match T::spec_read(s, 0) {
        Ok((v, _)) => Ok(v),
        Err(e) => Err(e),
    }
}

/// What [`Marshal::deserialize`] returns, by view, for bytes `s`: a buffer
/// shorter than `SERIALIZED_SIZE` is too small, a longer one parses.
pub open spec fn spec_deserialize<T: Marshal>(s: Seq<u8>) -> Result<T::V> {
    if s.len() < T::SERIALIZED_SIZE {
        Err(Error::BufferTooSmall { expected: T::SERIALIZED_SIZE, actual: s.len() as usize })
    } else {
        spec_parse::<T>(s)
    }
}

/// A parse result with the value taken by its view.
pub open spec fn view_read<T: View>(r: Result<(T, usize)>) -> Result<(T::V, usize)> {
    match r {
        Ok((v, p)) => Ok((v@, p)),
        Err(e) => Err(e),
    }
}

/// A parse result with the value taken by its view.
pub open spec fn view_parse<T: View>(r: Result<T>) -> Result<T::V> {
    match r {
        Ok(v) => Ok(v@),
        Err(e) => Err(e),
    }
}

/// Types that serialize to / parse from the firmware ABI byte layout.
///
/// A value is described by its view: for plain records the value itself,
/// for records holding a variable number of pins the same record with
/// sequences in place of vectors.
pub trait Marshal: Sized + View {
    /// Exact serialized size in bytes (the `sizeof` of the ABI struct).
    const SERIALIZED_SIZE: usize;

    /// The validation outcome: values whose variable-length parts exceed the
    /// fixed ABI arrays cannot be serialized.
    spec fn spec_validate(&self) -> Result<()>;

    /// The field chunks of the serialized form, in write order.
    spec fn spec_chunks(&self) -> Seq<Seq<u8>>;

    /// Parse a value starting at `pos` of `s`: the value (by view) and the
    /// position after it, or the first error met.
    spec fn spec_read(s: Seq<u8>, pos: usize) -> Result<(Self::V, usize)>;

    /// The value (by view) a parse of this value's serialization yields: the
    /// value itself, except where the ABI cannot tell absent entries from
    /// zeroed ones.
    spec fn spec_normalize(&self) -> Self::V;

    /// Check that the value fits the ABI arrays.
    fn validate(&self) -> (r: Result<()>)
        ensures
            r == self.spec_validate(),
    ;

    /// The field chunks of the serialized form.
    fn chunks(&self) -> (r: Vec<Vec<u8>>)
        requires
            self.spec_validate() is Ok,
        ensures
            chunks_view(r@) == self.spec_chunks(),
    ;

    /// Parse a value starting at `pos` of `buf`.
    fn read_at(buf: &[u8], pos: usize) -> (r: Result<(Self, usize)>)
        requires
            pos + Self::SERIALIZED_SIZE <= usize::MAX,
        ensures
            view_read(r) == Self::spec_read(buf@, pos),
            r matches Ok((_, p)) ==> p == pos + Self::SERIALIZED_SIZE && p <= buf@.len(),
    ;

    /// The serialized size is small.
    proof fn lemma_size_bound()
        ensures
            Self::SERIALIZED_SIZE <= 4096,
    ;

    /// A valid value serializes to exactly `SERIALIZED_SIZE` bytes.
    proof fn lemma_size(&self)
        requires
            self.spec_validate() is Ok,
        ensures
            flat(self.spec_chunks()).len() == Self::SERIALIZED_SIZE,
    ;

    /// Reading a valid value's serialization back yields the value (normalized).
    proof fn lemma_read_back(&self, s: Seq<u8>, pos: usize)
        requires
            self.spec_validate() is Ok,
            pos + Self::SERIALIZED_SIZE <= usize::MAX,
            holds_at(s, pos as int, flat(self.spec_chunks())),
        ensures
            Self::spec_read(s, pos) == Ok::<(Self::V, usize), Error>((self.spec_normalize(), (pos + Self::SERIALIZED_SIZE) as usize)),
    ;

    /// A value equal (by view) to the normalized form of a valid value is
    /// valid and serializes to the same bytes.
    proof fn lemma_reserialize(&self, other: &Self)
        requires
            self.spec_validate() is Ok,
            other@ == self.spec_normalize(),
        ensures
            other.spec_validate() is Ok,
            flat(other.spec_chunks()) == flat(self.spec_chunks()),
    ;

    /// Serialize into `buf`, returning the number of bytes written.
    ///
    /// An invalid value is rejected with its validation error and `buf` is
    /// untouched. Otherwise the fields are written in order until one does not
    /// fit, which yields [`Error::BufferTooSmall`] naming the end offset that
    /// field needed; a buffer of at least `SERIALIZED_SIZE` bytes receives the
    /// whole serialization in its front.
    fn serialize_into(&self, buf: &mut [u8]) -> (r: Result<usize>)
        ensures
            self.spec_validate() matches Err(e) ==> r == Err::<usize, Error>(e) && final(buf)@ == old(buf)@,
            self.spec_validate() is Ok ==> (final(buf)@, r) == write_chunks(self.spec_chunks(), old(buf)@, 0),
            self.spec_validate() is Ok && old(buf)@.len() >= Self::SERIALIZED_SIZE ==> {
                &&& r == Ok::<usize, Error>(Self::SERIALIZED_SIZE)
                &&& final(buf)@ == splice(old(buf)@, 0, flat(self.spec_chunks()))
            },
    {
        if let Err(e) = self.validate() {
            return Err(e);
        }
        let cs = self.chunks();
        proof {
            self.lemma_size();
            Self::lemma_size_bound();
            if old(buf)@.len() >= Self::SERIALIZED_SIZE {
                lemma_write_chunks_fit(self.spec_chunks(), old(buf)@, 0);
            }
        }
        write_chunks_into(&cs, buf)
    }

    /// Parse a value from the front of `buf`. A buffer shorter than
    /// `SERIALIZED_SIZE` is rejected as too small before any field is read.
    fn deserialize(buf: &[u8]) -> (r: Result<Self>)
        ensures
            buf@.len() < Self::SERIALIZED_SIZE ==> r == Err::<Self, Error>(
                Error::BufferTooSmall { expected: Self::SERIALIZED_SIZE, actual: buf@.len() as usize },
            ),
            buf@.len() >= Self::SERIALIZED_SIZE ==> view_parse(r) == (match Self::spec_read(buf@, 0) {
                Ok((v, _)) => Ok::<Self::V, Error>(v),
                Err(e) => Err(e),
            }),
    {
        proof { Self::lemma_size_bound(); }
        if buf.len() < Self::SERIALIZED_SIZE {
            return Err(Error::BufferTooSmall { expected: Self::SERIALIZED_SIZE, actual: buf.len() });
        }
        match Self::read_at(buf, 0) {
            Ok((v, _)) => Ok(v),
            Err(e) => Err(e),
        }
    }

    /// Serialize into a freshly allocated vector of exactly `SERIALIZED_SIZE` bytes.
    fn serialize(&self) -> (r: Vec<u8>)
        requires
            self.spec_validate() is Ok,
        ensures
            r@ == flat(self.spec_chunks()),
            r@.len() == Self::SERIALIZED_SIZE,
    {
        proof {
            self.lemma_size();
            Self::lemma_size_bound();
        }
        let cs = self.chunks();
        flatten(&cs)
    }
}

/// The serialized sizes of the records and messages, as the ABI structs
/// have them.
pub proof fn lemma_record_sizes()
    ensures
        Resolution::SERIALIZED_SIZE == 8,
        OutputPinPayload::SERIALIZED_SIZE == 16,
        ParamPin::SERIALIZED_SIZE == 16,
        OutputPinInfo::SERIALIZED_SIZE == 24,
        InputPinInfo::SERIALIZED_SIZE == 12,
        IsaConfig::SERIALIZED_SIZE == 20,
        Cropping::SERIALIZED_SIZE == 16,
        crate::fw_msgs::stream_cfg::StreamCfgData::SERIALIZED_SIZE == 292,
        crate::fw_msgs::frame_buff::FrameBuffSet::SERIALIZED_SIZE == 120,
        SendQueueToken::SERIALIZED_SIZE == 16,
        ProxySendQueueToken::SERIALIZED_SIZE == 16,
        ErrorInfo::SERIALIZED_SIZE == 8,
        RespInfo::SERIALIZED_SIZE == 64,
        ProxyErrorInfo::SERIALIZED_SIZE == 8,
        ProxyRespInfo::SERIALIZED_SIZE == 12,
{
    crate::fw_msgs::stream_cfg::lemma_stream_cfg_size();
    crate::fw_msgs::frame_buff::lemma_frame_buff_set_size();
}

// ===========================================================================
// Leaf structures.

/// Generic resolution (`struct ipu_fw_isys_resolution_abi`).
#[derive(Debug, Clone, Copy, PartialEq, Eq, Default)]
pub struct Resolution {
    pub width: u32,
    pub height: u32,
}

impl Resolution {
    pub fn new(width: u32, height: u32) -> (r: Self)
        ensures
            r == (Resolution { width, height }),
    {
        Resolution { width, height }
    }
}

impl View for Resolution {
    type V = Resolution;

    open spec fn view(&self) -> Resolution {
        *self
    }
}

impl Marshal for Resolution {
    const SERIALIZED_SIZE: usize = SIZEOF_RESOLUTION;

    open spec fn spec_validate(&self) -> Result<()> {
        Ok(())
    }

    open spec fn spec_chunks(&self) -> Seq<Seq<u8>> {
        seq![c_u32(self.width)].push(c_u32(self.height))
    }

    open spec fn spec_read(s: Seq<u8>, pos: usize) -> Result<(Self, usize)> {
        match rd_u32(s, pos) {
            Err(e) => Err(e),
            Ok((width, p)) => match rd_u32(s, p) {
                Err(e) => Err(e),
                Ok((height, p)) => Ok((Resolution { width, height }, p)),
            },
        }
    }

    open spec fn spec_normalize(&self) -> Self {
        *self
    }

    fn validate(&self) -> (r: Result<()>) {
        Ok(())
    }

    fn chunks(&self) -> (r: Vec<Vec<u8>>) {
        let mut v: Vec<Vec<u8>> = Vec::new();
        v.push(chunk_u32(self.width));
        v.push(chunk_u32(self.height));
        proof { assert(chunks_view(v@) =~= self.spec_chunks()); }
        v
    }

    fn read_at(buf: &[u8], pos: usize) -> (r: Result<(Self, usize)>) {
        let (width, p) = read_u32(buf, pos)?;
        let (height, p) = read_u32(buf, p)?;
        Ok((Resolution { width, height }, p))
    }

    proof fn lemma_size_bound() {
    }

    proof fn lemma_reserialize(&self, other: &Self) {
    }

    proof fn lemma_size(&self) {
    }

    proof fn lemma_read_back(&self, s: Seq<u8>, pos: usize) {
    }
}


/// Output pin payload (`struct ipu_fw_isys_output_pin_payload_abi`).
#[derive(Debug, Clone, Copy, PartialEq, Eq, Default)]
pub struct OutputPinPayload {
    pub out_buf_id: BufferId,
    pub addr: CssVirtualAddress,
}

impl OutputPinPayload {
    pub fn new(out_buf_id: BufferId, addr: CssVirtualAddress) -> (r: Self)
        ensures
            r == (OutputPinPayload { out_buf_id, addr }),
    {
        OutputPinPayload { out_buf_id, addr }
    }
}

impl View for OutputPinPayload {
    type V = OutputPinPayload;

    open spec fn view(&self) -> OutputPinPayload {
        *self
    }
}

impl Marshal for OutputPinPayload {
    const SERIALIZED_SIZE: usize = SIZEOF_OUTPUT_PIN_PAYLOAD;

    open spec fn spec_validate(&self) -> Result<()> {
        Ok(())
    }

    open spec fn spec_chunks(&self) -> Seq<Seq<u8>> {
        Seq::<Seq<u8>>::empty().push(c_u64(self.out_buf_id.0)).push(c_u32(self.addr.0)).push(c_pad(4))
    }

    open spec fn spec_read(s: Seq<u8>, pos: usize) -> Result<(Self, usize)> {
        match rd_u64(s, pos) { Err(e) => Err(e), Ok((raw, p0)) => { let out_buf_id = BufferId(raw); match rd_u32(s, p0) { Err(e) => Err(e), Ok((raw, p1)) => { let addr = CssVirtualAddress(raw); match rd_take(s, p1, 4) { Err(e) => Err(e), Ok(p2) => Ok((OutputPinPayload { out_buf_id, addr }, p2)) } } } } }
    }

    open spec fn spec_normalize(&self) -> Self {
        *self
    }

    fn validate(&self) -> (r: Result<()>) {
        Ok(())
    }

    fn chunks(&self) -> (r: Vec<Vec<u8>>) {
        let mut v: Vec<Vec<u8>> = Vec::new();
        v.push(chunk_u64(self.out_buf_id.get()));
        v.push(chunk_u32(self.addr.get()));
        v.push(chunk_pad(4));
        proof { assert(chunks_view(v@) =~= self.spec_chunks()); }
        v
    }

    fn read_at(buf: &[u8], pos: usize) -> (r: Result<(Self, usize)>) {
        let p = pos;
        let (raw, p) = read_u64(buf, p)?;
        let out_buf_id = BufferId(raw);
        let (raw, p) = read_u32(buf, p)?;
        let addr = CssVirtualAddress(raw);
        let p = skip(buf, p, 4)?;
        Ok((OutputPinPayload { out_buf_id, addr }, p))
    }

    proof fn lemma_size_bound() {
    }

    proof fn lemma_reserialize(&self, other: &Self) {
    }

    proof fn lemma_size(&self) {
        
    }

    proof fn lemma_read_back(&self, s: Seq<u8>, pos: usize) {
        
    }
}

/// Param pin (`struct ipu_fw_isys_param_pin_abi`).
#[derive(Debug, Clone, Copy, PartialEq, Eq, Default)]
pub struct ParamPin {
    pub param_buf_id: BufferId,
    pub addr: CssVirtualAddress,
}

impl ParamPin {
    pub fn new(param_buf_id: BufferId, addr: CssVirtualAddress) -> (r: Self)
        ensures
            r == (ParamPin { param_buf_id, addr }),
    {
        ParamPin { param_buf_id, addr }
    }
}

impl View for ParamPin {
    type V = ParamPin;

    open spec fn view(&self) -> ParamPin {
        *self
    }
}

impl Marshal for ParamPin {
    const SERIALIZED_SIZE: usize = SIZEOF_PARAM_PIN;

    open spec fn spec_validate(&self) -> Result<()> {
        Ok(())
    }

    open spec fn spec_chunks(&self) -> Seq<Seq<u8>> {
        Seq::<Seq<u8>>::empty().push(c_u64(self.param_buf_id.0)).push(c_u32(self.addr.0)).push(c_pad(4))
    }

    open spec fn spec_read(s: Seq<u8>, pos: usize) -> Result<(Self, usize)> {
        match rd_u64(s, pos) { Err(e) => Err(e), Ok((raw, p0)) => { let param_buf_id = BufferId(raw); match rd_u32(s, p0) { Err(e) => Err(e), Ok((raw, p1)) => { let addr = CssVirtualAddress(raw); match rd_take(s, p1, 4) { Err(e) => Err(e), Ok(p2) => Ok((ParamPin { param_buf_id, addr }, p2)) } } } } }
    }

    open spec fn spec_normalize(&self) -> Self {
        *self
    }

    fn validate(&self) -> (r: Result<()>) {
        Ok(())
    }

    fn chunks(&self) -> (r: Vec<Vec<u8>>) {
        let mut v: Vec<Vec<u8>> = Vec::new();
        v.push(chunk_u64(self.param_buf_id.get()));
        v.push(chunk_u32(self.addr.get()));
        v.push(chunk_pad(4));
        proof { assert(chunks_view(v@) =~= self.spec_chunks()); }
        v
    }

    fn read_at(buf: &[u8], pos: usize) -> (r: Result<(Self, usize)>) {
        let p = pos;
        let (raw, p) = read_u64(buf, p)?;
        let param_buf_id = BufferId(raw);
        let (raw, p) = read_u32(buf, p)?;
        let addr = CssVirtualAddress(raw);
        let p = skip(buf, p, 4)?;
        Ok((ParamPin { param_buf_id, addr }, p))
    }

    proof fn lemma_size_bound() {
    }

    proof fn lemma_reserialize(&self, other: &Self) {
    }

    proof fn lemma_size(&self) {
        
    }

    proof fn lemma_read_back(&self, s: Seq<u8>, pos: usize) {
        
    }
}

/// Output pin descriptor (`struct ipu_fw_isys_output_pin_info_abi`).
#[derive(Debug, Clone, Copy, PartialEq, Eq, Default)]
pub struct OutputPinInfo {
    pub output_res: Resolution,
    pub stride: u32,
    pub watermark_in_lines: u32,
    pub send_irq: u8,
    /// Related input pin id.
    pub input_pin_id: u8,
    /// Pin type (`enum ipu_fw_isys_pin_type`).
    pub pt: u8,
    /// Frame format type (`enum ipu_fw_isys_frame_format_type`).
    pub ft: u8,
    pub online: u8,
}

impl View for OutputPinInfo {
    type V = OutputPinInfo;

    open spec fn view(&self) -> OutputPinInfo {
        *self
    }
}

impl Marshal for OutputPinInfo {
    const SERIALIZED_SIZE: usize = SIZEOF_OUTPUT_PIN_INFO;

    open spec fn spec_validate(&self) -> Result<()> {
        Ok(())
    }

    open spec fn spec_chunks(&self) -> Seq<Seq<u8>> {
        (Seq::<Seq<u8>>::empty() + self.output_res.spec_chunks()).push(c_u32(self.stride)).push(c_u32(self.watermark_in_lines)).push(c_u8(self.send_irq)).push(c_u8(self.input_pin_id)).push(c_u8(self.pt)).push(c_u8(self.ft)).push(c_u8(self.online)).push(c_pad(3))
    }

    open spec fn spec_read(s: Seq<u8>, pos: usize) -> Result<(Self, usize)> {
        match Resolution::spec_read(s, pos) { Err(e) => Err(e), Ok((output_res, p0)) => match rd_u32(s, p0) { Err(e) => Err(e), Ok((stride, p1)) => match rd_u32(s, p1) { Err(e) => Err(e), Ok((watermark_in_lines, p2)) => match rd_u8(s, p2) { Err(e) => Err(e), Ok((send_irq, p3)) => match rd_u8(s, p3) { Err(e) => Err(e), Ok((input_pin_id, p4)) => match rd_u8(s, p4) { Err(e) => Err(e), Ok((pt, p5)) => match rd_u8(s, p5) { Err(e) => Err(e), Ok((ft, p6)) => match rd_u8(s, p6) { Err(e) => Err(e), Ok((online, p7)) => match rd_take(s, p7, 3) { Err(e) => Err(e), Ok(p8) => Ok((OutputPinInfo { output_res, stride, watermark_in_lines, send_irq, input_pin_id, pt, ft, online }, p8)) } } } } } } } } }
    }

    open spec fn spec_normalize(&self) -> Self {
        *self
    }

    fn validate(&self) -> (r: Result<()>) {
        Ok(())
    }

    fn chunks(&self) -> (r: Vec<Vec<u8>>) {
        let mut v: Vec<Vec<u8>> = Vec::new();
        let mut inner = self.output_res.chunks();
        v.append(&mut inner);
        v.push(chunk_u32(self.stride));
        v.push(chunk_u32(self.watermark_in_lines));
        v.push(chunk_u8(self.send_irq));
        v.push(chunk_u8(self.input_pin_id));
        v.push(chunk_u8(self.pt));
        v.push(chunk_u8(self.ft));
        v.push(chunk_u8(self.online));
        v.push(chunk_pad(3));
        proof { assert(chunks_view(v@) =~= self.spec_chunks()); }
        v
    }

    fn read_at(buf: &[u8], pos: usize) -> (r: Result<(Self, usize)>) {
        let p = pos;
        let (output_res, p) = Resolution::read_at(buf, p)?;
        let (stride, p) = read_u32(buf, p)?;
        let (watermark_in_lines, p) = read_u32(buf, p)?;
        let (send_irq, p) = read_u8(buf, p)?;
        let (input_pin_id, p) = read_u8(buf, p)?;
        let (pt, p) = read_u8(buf, p)?;
        let (ft, p) = read_u8(buf, p)?;
        let (online, p) = read_u8(buf, p)?;
        let p = skip(buf, p, 3)?;
        Ok((OutputPinInfo { output_res, stride, watermark_in_lines, send_irq, input_pin_id, pt, ft, online }, p))
    }

    proof fn lemma_size_bound() {
    }

    proof fn lemma_reserialize(&self, other: &Self) {
    }

    proof fn lemma_size(&self) {
        self.output_res.lemma_size();
    }

    proof fn lemma_read_back(&self, s: Seq<u8>, pos: usize) {
        self.output_res.lemma_size();
        self.output_res.lemma_read_back(s, (pos + 0) as usize);
    }
}

/// Input pin descriptor (`struct ipu_fw_isys_input_pin_info_abi`).
#[derive(Debug, Clone, Copy, PartialEq, Eq, Default)]
pub struct InputPinInfo {
    pub input_res: Resolution,
    /// MIPI data type (`enum ipu_fw_isys_mipi_data_type`).
    pub dt: u8,
    /// MIPI store mode (`enum ipu_fw_isys_mipi_store_mode`).
    pub mipi_store_mode: u8,
    /// Native bits per pixel; usually derived from `dt` through [`bits_per_pixel`].
    pub bits_per_pix: u8,
}

impl View for InputPinInfo {
    type V = InputPinInfo;

    open spec fn view(&self) -> InputPinInfo {
        *self
    }
}

impl Marshal for InputPinInfo {
    const SERIALIZED_SIZE: usize = SIZEOF_INPUT_PIN_INFO;

    open spec fn spec_validate(&self) -> Result<()> {
        Ok(())
    }

    open spec fn spec_chunks(&self) -> Seq<Seq<u8>> {
        (Seq::<Seq<u8>>::empty() + self.input_res.spec_chunks()).push(c_u8(self.dt)).push(c_u8(self.mipi_store_mode)).push(c_u8(self.bits_per_pix)).push(c_pad(1))
    }

    open spec fn spec_read(s: Seq<u8>, pos: usize) -> Result<(Self, usize)> {
        match Resolution::spec_read(s, pos) { Err(e) => Err(e), Ok((input_res, p0)) => match rd_u8(s, p0) { Err(e) => Err(e), Ok((dt, p1)) => match rd_u8(s, p1) { Err(e) => Err(e), Ok((mipi_store_mode, p2)) => match rd_u8(s, p2) { Err(e) => Err(e), Ok((bits_per_pix, p3)) => match rd_take(s, p3, 1) { Err(e) => Err(e), Ok(p4) => Ok((InputPinInfo { input_res, dt, mipi_store_mode, bits_per_pix }, p4)) } } } } }
    }

    open spec fn spec_normalize(&self) -> Self {
        *self
    }

    fn validate(&self) -> (r: Result<()>) {
        Ok(())
    }

    fn chunks(&self) -> (r: Vec<Vec<u8>>) {
        let mut v: Vec<Vec<u8>> = Vec::new();
        let mut inner = self.input_res.chunks();
        v.append(&mut inner);
        v.push(chunk_u8(self.dt));
        v.push(chunk_u8(self.mipi_store_mode));
        v.push(chunk_u8(self.bits_per_pix));
        v.push(chunk_pad(1));
        proof { assert(chunks_view(v@) =~= self.spec_chunks()); }
        v
    }

    fn read_at(buf: &[u8], pos: usize) -> (r: Result<(Self, usize)>) {
        let p = pos;
        let (input_res, p) = Resolution::read_at(buf, p)?;
        let (dt, p) = read_u8(buf, p)?;
        let (mipi_store_mode, p) = read_u8(buf, p)?;
        let (bits_per_pix, p) = read_u8(buf, p)?;
        let p = skip(buf, p, 1)?;
        Ok((InputPinInfo { input_res, dt, mipi_store_mode, bits_per_pix }, p))
    }

    proof fn lemma_size_bound() {
    }

    proof fn lemma_reserialize(&self, other: &Self) {
    }

    proof fn lemma_size(&self) {
        self.input_res.lemma_size();
    }

    proof fn lemma_read_back(&self, s: Seq<u8>, pos: usize) {
        self.input_res.lemma_size();
        self.input_res.lemma_read_back(s, (pos + 0) as usize);
    }
}

/// ISA configuration (`struct ipu_fw_isys_isa_cfg_abi`).
///
/// The ABI `cfg` bitfield is packed into one little-endian `u32`, least
/// significant bit first: `blc` 0, `lsc` 1, `dpc` 2, `downscaler` 3, `awb` 4,
/// `af` 5, `ae` 6, the 8-bit `paf` at bits 7..15, `send_irq_stats_ready` 15
/// and `send_resp_stats_ready` 16.
#[derive(Debug, Clone, Copy, PartialEq, Eq, Default)]
pub struct IsaConfig {
    pub isa_res: [Resolution; N_IPU_FW_ISYS_RESOLUTION_INFO],
    pub blc: bool,
    pub lsc: bool,
    pub dpc: bool,
    pub downscaler: bool,
    pub awb: bool,
    pub af: bool,
    pub ae: bool,
    /// 8-bit PAF field (bits 7..15).
    pub paf: u8,
    pub send_irq_stats_ready: bool,
    pub send_resp_stats_ready: bool,
}

/// `1` for a set flag, `0` for a clear one.
pub open spec fn flag_bit(b: bool) -> u32 {
    if b { 1 } else { 0 }
}

/// The ABI `cfg` word holding the given flags at their bit positions.
pub open spec fn cfg_word(
    blc: bool,
    lsc: bool,
    dpc: bool,
    downscaler: bool,
    awb: bool,
    af: bool,
    ae: bool,
    paf: u8,
    irq: bool,
    resp: bool,
) -> u32 {
    flag_bit(blc) | (flag_bit(lsc) << 1u32) | (flag_bit(dpc) << 2u32) | (flag_bit(downscaler) << 3u32)
        | (flag_bit(awb) << 4u32) | (flag_bit(af) << 5u32) | (flag_bit(ae) << 6u32) | ((paf as u32) << 7u32)
        | (flag_bit(irq) << 15u32) | (flag_bit(resp) << 16u32)
}

/// The ABI `cfg` word of the flags of `c`.
pub open spec fn spec_pack_cfg(c: IsaConfig) -> u32 {
    cfg_word(c.blc, c.lsc, c.dpc, c.downscaler, c.awb, c.af, c.ae, c.paf, c.send_irq_stats_ready, c.send_resp_stats_ready)
}

/// The configuration with resolutions `isa_res` and the flags of the ABI word `v`.
pub open spec fn spec_unpack_cfg(isa_res: [Resolution; N_IPU_FW_ISYS_RESOLUTION_INFO], v: u32) -> IsaConfig {
    IsaConfig {
        isa_res,
        blc: v & 1 != 0,
        lsc: v & 0x2 != 0,
        dpc: v & 0x4 != 0,
        downscaler: v & 0x8 != 0,
        awb: v & 0x10 != 0,
        af: v & 0x20 != 0,
        ae: v & 0x40 != 0,
        paf: ((v >> 7u32) & 0xff) as u8,
        send_irq_stats_ready: v & 0x8000 != 0,
        send_resp_stats_ready: v & 0x10000 != 0,
    }
}

/// Each flag of a `cfg` word reads back from its bit position.
proof fn lemma_cfg_word_bits(
    blc: bool,
    lsc: bool,
    dpc: bool,
    downscaler: bool,
    awb: bool,
    af: bool,
    ae: bool,
    paf: u8,
    irq: bool,
    resp: bool,
    v: u32,
)
    by (bit_vector)
    requires
        v == (if blc { 1u32 } else { 0u32 }) | ((if lsc { 1u32 } else { 0u32 }) << 1u32) | ((if dpc { 1u32 } else { 0u32 }) << 2u32)
            | ((if downscaler { 1u32 } else { 0u32 }) << 3u32) | ((if awb { 1u32 } else { 0u32 }) << 4u32)
            | ((if af { 1u32 } else { 0u32 }) << 5u32) | ((if ae { 1u32 } else { 0u32 }) << 6u32) | ((paf as u32) << 7u32)
            | ((if irq { 1u32 } else { 0u32 }) << 15u32) | ((if resp { 1u32 } else { 0u32 }) << 16u32),
    ensures
        (v & 1 != 0) == blc,
        (v & 0x2 != 0) == lsc,
        (v & 0x4 != 0) == dpc,
        (v & 0x8 != 0) == downscaler,
        (v & 0x10 != 0) == awb,
        (v & 0x20 != 0) == af,
        (v & 0x40 != 0) == ae,
        ((v >> 7u32) & 0xff) as u8 == paf,
        (v & 0x8000 != 0) == irq,
        (v & 0x10000 != 0) == resp,
        v >> 17u32 == 0,
{
}

/// Unpacking a configuration's packed `cfg` word restores its flags.
pub proof fn lemma_unpack_pack_cfg(c: IsaConfig)
    ensures
        spec_unpack_cfg(c.isa_res, spec_pack_cfg(c)) == c,
{
    lemma_cfg_word_bits(
        c.blc,
        c.lsc,
        c.dpc,
        c.downscaler,
        c.awb,
        c.af,
        c.ae,
        c.paf,
        c.send_irq_stats_ready,
        c.send_resp_stats_ready,
        spec_pack_cfg(c),
    );
}

fn flag_word(b: bool) -> (r: u32)
    ensures
        r == flag_bit(b),
{
    if b { 1 } else { 0 }
}

impl IsaConfig {
    /// Pack the boolean and `paf` flags into the ABI `cfg` word.
    pub fn pack_cfg(&self) -> (r: u32)
        ensures
            r == spec_pack_cfg(*self),
    {
        flag_word(self.blc) | (flag_word(self.lsc) << 1u32) | (flag_word(self.dpc) << 2u32) | (flag_word(
            self.downscaler,
        ) << 3u32) | (flag_word(self.awb) << 4u32) | (flag_word(self.af) << 5u32) | (flag_word(self.ae) << 6u32)
            | ((self.paf as u32) << 7u32) | (flag_word(self.send_irq_stats_ready) << 15u32) | (flag_word(
            self.send_resp_stats_ready,
        ) << 16u32)
    }

    /// Unpack the ABI `cfg` word `v` into individual flags.
    pub fn unpack_cfg(isa_res: [Resolution; N_IPU_FW_ISYS_RESOLUTION_INFO], v: u32) -> (r: Self)
        ensures
            r == spec_unpack_cfg(isa_res, v),
    {
        IsaConfig {
            isa_res,
            blc: v & 1 != 0,
            lsc: v & 0x2 != 0,
            dpc: v & 0x4 != 0,
            downscaler: v & 0x8 != 0,
            awb: v & 0x10 != 0,
            af: v & 0x20 != 0,
            ae: v & 0x40 != 0,
            paf: ((v >> 7u32) & 0xff) as u8,
            send_irq_stats_ready: v & 0x8000 != 0,
            send_resp_stats_ready: v & 0x10000 != 0,
        }
    }
}

/// The all-zero resolution.
pub open spec fn zero_resolution() -> Resolution {
    Resolution { width: 0, height: 0 }
}

proof fn lemma_zero_resolution()
    ensures
        is_zero_record(zero_resolution()),
{
    lemma_le_zero();
    assert(flat(zero_resolution().spec_chunks()) =~= c_pad(8));
}

impl View for IsaConfig {
    type V = IsaConfig;

    open spec fn view(&self) -> IsaConfig {
        *self
    }
}

impl Marshal for IsaConfig {
    const SERIALIZED_SIZE: usize = SIZEOF_ISA_CFG;

    open spec fn spec_validate(&self) -> Result<()> {
        Ok(())
    }

    open spec fn spec_chunks(&self) -> Seq<Seq<u8>> {
        slot_chunks(self.isa_res@, N_IPU_FW_ISYS_RESOLUTION_INFO as nat).push(c_u32(spec_pack_cfg(*self)))
    }

    open spec fn spec_read(s: Seq<u8>, pos: usize) -> Result<(Self, usize)> {
        match read_seq::<Resolution>(s, pos, N_IPU_FW_ISYS_RESOLUTION_INFO as nat) {
            Err(e) => Err(e),
            Ok((res, p)) => match rd_u32(s, p) {
                Err(e) => Err(e),
                Ok((v, q)) => Ok((spec_unpack_cfg(array_of(res), v), q)),
            },
        }
    }

    open spec fn spec_normalize(&self) -> Self {
        *self
    }

    fn validate(&self) -> (r: Result<()>) {
        Ok(())
    }

    fn chunks(&self) -> (r: Vec<Vec<u8>>) {
        let mut v = slot_chunks_of(&self.isa_res, N_IPU_FW_ISYS_RESOLUTION_INFO);
        v.push(chunk_u32(self.pack_cfg()));
        v
    }

    fn read_at(buf: &[u8], pos: usize) -> (r: Result<(Self, usize)>) {
        let (res, p) = read_items::<Resolution>(buf, pos, N_IPU_FW_ISYS_RESOLUTION_INFO)?;
        let isa_res = [res[0], res[1]];
        proof {
            assert(isa_res@ =~= res@.map_values(|x: Resolution| x@));
            lemma_array_of(isa_res, res@.map_values(|x: Resolution| x@));
        }
        let (v, q) = read_u32(buf, p)?;
        Ok((IsaConfig::unpack_cfg(isa_res, v), q))
    }

    proof fn lemma_size_bound() {
    }

    proof fn lemma_reserialize(&self, other: &Self) {
    }

    proof fn lemma_size(&self) {
        lemma_slots_len(self.isa_res@, N_IPU_FW_ISYS_RESOLUTION_INFO as nat);
    }

    proof fn lemma_read_back(&self, s: Seq<u8>, pos: usize) {
        let n = N_IPU_FW_ISYS_RESOLUTION_INFO as nat;
        lemma_zero_resolution();
        lemma_slots_len(self.isa_res@, n);
        lemma_holds_chunks_split(s, pos as int, slot_chunks(self.isa_res@, n), seq![c_u32(spec_pack_cfg(*self))]);
        lemma_flat_single(c_u32(spec_pack_cfg(*self)));
        lemma_read_slots(self.isa_res@, n, zero_resolution(), s, pos);
        assert(slot_values(self.isa_res@, n, zero_resolution()) =~= self.isa_res@);
        lemma_array_of(self.isa_res, self.isa_res@);
        lemma_unpack_pack_cfg(*self);
    }
}

/// Cropping coordinates (`struct ipu_fw_isys_cropping_abi`).
#[derive(Debug, Clone, Copy, PartialEq, Eq, Default)]
pub struct Cropping {
    pub top_offset: i32,
    pub left_offset: i32,
    pub bottom_offset: i32,
    pub right_offset: i32,
}

impl View for Cropping {
    type V = Cropping;

    open spec fn view(&self) -> Cropping {
        *self
    }
}

impl Marshal for Cropping {
    const SERIALIZED_SIZE: usize = SIZEOF_CROPPING;

    open spec fn spec_validate(&self) -> Result<()> {
        Ok(())
    }

    open spec fn spec_chunks(&self) -> Seq<Seq<u8>> {
        Seq::<Seq<u8>>::empty().push(c_i32(self.top_offset)).push(c_i32(self.left_offset)).push(c_i32(self.bottom_offset)).push(c_i32(self.right_offset))
    }

    open spec fn spec_read(s: Seq<u8>, pos: usize) -> Result<(Self, usize)> {
        match rd_i32(s, pos) { Err(e) => Err(e), Ok((top_offset, p0)) => match rd_i32(s, p0) { Err(e) => Err(e), Ok((left_offset, p1)) => match rd_i32(s, p1) { Err(e) => Err(e), Ok((bottom_offset, p2)) => match rd_i32(s, p2) { Err(e) => Err(e), Ok((right_offset, p3)) => Ok((Cropping { top_offset, left_offset, bottom_offset, right_offset }, p3)) } } } }
    }

    open spec fn spec_normalize(&self) -> Self {
        *self
    }

    fn validate(&self) -> (r: Result<()>) {
        Ok(())
    }

    fn chunks(&self) -> (r: Vec<Vec<u8>>) {
        let mut v: Vec<Vec<u8>> = Vec::new();
        v.push(chunk_i32(self.top_offset));
        v.push(chunk_i32(self.left_offset));
        v.push(chunk_i32(self.bottom_offset));
        v.push(chunk_i32(self.right_offset));
        proof { assert(chunks_view(v@) =~= self.spec_chunks()); }
        v
    }

    fn read_at(buf: &[u8], pos: usize) -> (r: Result<(Self, usize)>) {
        let p = pos;
        let (top_offset, p) = read_i32(buf, p)?;
        let (left_offset, p) = read_i32(buf, p)?;
        let (bottom_offset, p) = read_i32(buf, p)?;
        let (right_offset, p) = read_i32(buf, p)?;
        Ok((Cropping { top_offset, left_offset, bottom_offset, right_offset }, p))
    }

    proof fn lemma_size_bound() {
    }

    proof fn lemma_reserialize(&self, other: &Self) {
    }

    proof fn lemma_size(&self) {
        
    }

    proof fn lemma_read_back(&self, s: Seq<u8>, pos: usize) {
        
    }
}

// ===========================================================================
// Command tokens.

/// Send-queue command token (`struct ipu_fw_send_queue_token`): the message
/// for stream open/start/capture/stop/flush/close.
#[derive(Debug, Clone, Copy, PartialEq, Eq)]
pub struct SendQueueToken {
    /// CPU-side buffer handle; zero for "simple" commands.
    pub buf_handle: BufferId,
    /// DMA-mapped payload address; zero for "simple" commands.
    pub payload: CssVirtualAddress,
    pub send_type: SendType,
}

impl SendQueueToken {
    /// A "complex" command carrying a payload.
    pub fn complex(buf_handle: BufferId, payload: CssVirtualAddress, send_type: SendType) -> (r: Self)
        ensures
            r == (SendQueueToken { buf_handle, payload, send_type }),
    {
        SendQueueToken { buf_handle, payload, send_type }
    }

    /// A "simple" command without payload: handle and payload are zero.
    pub fn simple(send_type: SendType) -> (r: Self)
        ensures
            r == (SendQueueToken { buf_handle: BufferId(0), payload: CssVirtualAddress(0), send_type }),
    {
        SendQueueToken { buf_handle: BufferId(0), payload: CssVirtualAddress(0), send_type }
    }
}

impl View for SendQueueToken {
    type V = SendQueueToken;

    open spec fn view(&self) -> SendQueueToken {
        *self
    }
}

impl Marshal for SendQueueToken {
    const SERIALIZED_SIZE: usize = SIZEOF_SEND_QUEUE_TOKEN;

    open spec fn spec_validate(&self) -> Result<()> {
        Ok(())
    }

    open spec fn spec_chunks(&self) -> Seq<Seq<u8>> {
        Seq::<Seq<u8>>::empty().push(c_u64(self.buf_handle.0)).push(c_u32(self.payload.0)).push(c_u32(self.send_type.spec_as_u32()))
    }

    open spec fn spec_read(s: Seq<u8>, pos: usize) -> Result<(Self, usize)> {
        match rd_u64(s, pos) { Err(e) => Err(e), Ok((raw, p0)) => { let buf_handle = BufferId(raw); match rd_u32(s, p0) { Err(e) => Err(e), Ok((raw, p1)) => { let payload = CssVirtualAddress(raw); match rd_u32(s, p1) { Err(e) => Err(e), Ok((raw, p2)) => match SendType::spec_from_u32(raw) { Err(e) => Err(e), Ok(send_type) => Ok((SendQueueToken { buf_handle, payload, send_type }, p2)) } } } } } }
    }

    open spec fn spec_normalize(&self) -> Self {
        *self
    }

    fn validate(&self) -> (r: Result<()>) {
        Ok(())
    }

    fn chunks(&self) -> (r: Vec<Vec<u8>>) {
        let mut v: Vec<Vec<u8>> = Vec::new();
        v.push(chunk_u64(self.buf_handle.get()));
        v.push(chunk_u32(self.payload.get()));
        v.push(chunk_u32(self.send_type.as_u32()));
        proof { assert(chunks_view(v@) =~= self.spec_chunks()); }
        v
    }

    fn read_at(buf: &[u8], pos: usize) -> (r: Result<(Self, usize)>) {
        let p = pos;
        let (raw, p) = read_u64(buf, p)?;
        let buf_handle = BufferId(raw);
        let (raw, p) = read_u32(buf, p)?;
        let payload = CssVirtualAddress(raw);
        let (raw, p) = read_u32(buf, p)?;
        let send_type = SendType::from_u32(raw)?;
        Ok((SendQueueToken { buf_handle, payload, send_type }, p))
    }

    proof fn lemma_size_bound() {
    }

    proof fn lemma_reserialize(&self, other: &Self) {
    }

    proof fn lemma_size(&self) {
        
    }

    proof fn lemma_read_back(&self, s: Seq<u8>, pos: usize) {
        
    }
}

/// Proxy send-queue token (`struct ipu_fw_proxy_send_queue_token`).
#[derive(Debug, Clone, Copy, PartialEq, Eq, Default)]
pub struct ProxySendQueueToken {
    pub request_id: u32,
    pub region_index: u32,
    pub offset: u32,
    pub value: u32,
}

impl ProxySendQueueToken {
    pub fn new(request_id: u32, region_index: u32, offset: u32, value: u32) -> (r: Self)
        ensures
            r == (ProxySendQueueToken { request_id, region_index, offset, value }),
    {
        ProxySendQueueToken { request_id, region_index, offset, value }
    }
}

impl View for ProxySendQueueToken {
    type V = ProxySendQueueToken;

    open spec fn view(&self) -> ProxySendQueueToken {
        *self
    }
}

impl Marshal for ProxySendQueueToken {
    const SERIALIZED_SIZE: usize = SIZEOF_PROXY_SEND_QUEUE_TOKEN;

    open spec fn spec_validate(&self) -> Result<()> {
        Ok(())
    }

    open spec fn spec_chunks(&self) -> Seq<Seq<u8>> {
        Seq::<Seq<u8>>::empty().push(c_u32(self.request_id)).push(c_u32(self.region_index)).push(c_u32(self.offset)).push(c_u32(self.value))
    }

    open spec fn spec_read(s: Seq<u8>, pos: usize) -> Result<(Self, usize)> {
        match rd_u32(s, pos) { Err(e) => Err(e), Ok((request_id, p0)) => match rd_u32(s, p0) { Err(e) => Err(e), Ok((region_index, p1)) => match rd_u32(s, p1) { Err(e) => Err(e), Ok((offset, p2)) => match rd_u32(s, p2) { Err(e) => Err(e), Ok((value, p3)) => Ok((ProxySendQueueToken { request_id, region_index, offset, value }, p3)) } } } }
    }

    open spec fn spec_normalize(&self) -> Self {
        *self
    }

    fn validate(&self) -> (r: Result<()>) {
        Ok(())
    }

    fn chunks(&self) -> (r: Vec<Vec<u8>>) {
        let mut v: Vec<Vec<u8>> = Vec::new();
        v.push(chunk_u32(self.request_id));
        v.push(chunk_u32(self.region_index));
        v.push(chunk_u32(self.offset));
        v.push(chunk_u32(self.value));
        proof { assert(chunks_view(v@) =~= self.spec_chunks()); }
        v
    }

    fn read_at(buf: &[u8], pos: usize) -> (r: Result<(Self, usize)>) {
        let p = pos;
        let (request_id, p) = read_u32(buf, p)?;
        let (region_index, p) = read_u32(buf, p)?;
        let (offset, p) = read_u32(buf, p)?;
        let (value, p) = read_u32(buf, p)?;
        Ok((ProxySendQueueToken { request_id, region_index, offset, value }, p))
    }

    proof fn lemma_size_bound() {
    }

    proof fn lemma_reserialize(&self, other: &Self) {
    }

    proof fn lemma_size(&self) {
        
    }

    proof fn lemma_read_back(&self, s: Seq<u8>, pos: usize) {
        
    }
}

// ===========================================================================
// Responses.

/// Firmware error info (`struct ipu_fw_isys_error_info_abi`).
#[derive(Debug, Clone, Copy, PartialEq, Eq)]
pub struct ErrorInfo {
    pub error: IsysError,
    pub error_details: u32,
}

impl Default for ErrorInfo {
    fn default() -> (r: Self)
        ensures
            r == (ErrorInfo { error: IsysError::NoError, error_details: 0 }),
    {
        ErrorInfo { error: IsysError::NoError, error_details: 0 }
    }
}

impl View for ErrorInfo {
    type V = ErrorInfo;

    open spec fn view(&self) -> ErrorInfo {
        *self
    }
}

impl Marshal for ErrorInfo {
    const SERIALIZED_SIZE: usize = SIZEOF_ERROR_INFO;

    open spec fn spec_validate(&self) -> Result<()> {
        Ok(())
    }

    open spec fn spec_chunks(&self) -> Seq<Seq<u8>> {
        Seq::<Seq<u8>>::empty().push(c_u32(self.error.spec_as_u32())).push(c_u32(self.error_details))
    }

    open spec fn spec_read(s: Seq<u8>, pos: usize) -> Result<(Self, usize)> {
        match rd_u32(s, pos) { Err(e) => Err(e), Ok((raw, p0)) => match IsysError::spec_from_u32(raw) { Err(e) => Err(e), Ok(error) => match rd_u32(s, p0) { Err(e) => Err(e), Ok((error_details, p1)) => Ok((ErrorInfo { error, error_details }, p1)) } } }
    }

    open spec fn spec_normalize(&self) -> Self {
        *self
    }

    fn validate(&self) -> (r: Result<()>) {
        Ok(())
    }

    fn chunks(&self) -> (r: Vec<Vec<u8>>) {
        let mut v: Vec<Vec<u8>> = Vec::new();
        v.push(chunk_u32(self.error.as_u32()));
        v.push(chunk_u32(self.error_details));
        proof { assert(chunks_view(v@) =~= self.spec_chunks()); }
        v
    }

    fn read_at(buf: &[u8], pos: usize) -> (r: Result<(Self, usize)>) {
        let p = pos;
        let (raw, p) = read_u32(buf, p)?;
        let error = IsysError::from_u32(raw)?;
        let (error_details, p) = read_u32(buf, p)?;
        Ok((ErrorInfo { error, error_details }, p))
    }

    proof fn lemma_size_bound() {
    }

    proof fn lemma_reserialize(&self, other: &Self) {
    }

    proof fn lemma_size(&self) {
        
    }

    proof fn lemma_read_back(&self, s: Seq<u8>, pos: usize) {
        
    }
}

/// Response info (`struct ipu_fw_isys_resp_info_abi`), parsed from a
/// response-queue token.
#[derive(Debug, Clone, Copy, PartialEq, Eq)]
pub struct RespInfo {
    pub buf_id: BufferId,
    pub pin: OutputPinPayload,
    pub process_group_light: ParamPin,
    pub error_info: ErrorInfo,
    pub timestamp: [u32; 2],
    pub stream_handle: u8,
    /// Response type (stored as a byte).
    pub resp_type: RespType,
    pub pin_id: u8,
    pub acc_id: u8,
}

impl View for RespInfo {
    type V = RespInfo;

    open spec fn view(&self) -> RespInfo {
        *self
    }
}

impl Marshal for RespInfo {
    const SERIALIZED_SIZE: usize = SIZEOF_RESP_INFO;

    open spec fn spec_validate(&self) -> Result<()> {
        Ok(())
    }

    open spec fn spec_chunks(&self) -> Seq<Seq<u8>> {
        (((Seq::<Seq<u8>>::empty().push(c_u64(self.buf_id.0)) + self.pin.spec_chunks()) + self.process_group_light.spec_chunks()) + self.error_info.spec_chunks()).push(c_u32(self.timestamp[0])).push(c_u32(self.timestamp[1])).push(c_u8(self.stream_handle)).push(c_u8(self.resp_type.spec_as_u32() as u8)).push(c_u8(self.pin_id)).push(c_u8(self.acc_id)).push(c_pad(4))
    }

    open spec fn spec_read(s: Seq<u8>, pos: usize) -> Result<(Self, usize)> {
        match rd_u64(s, pos) { Err(e) => Err(e), Ok((raw, p0)) => { let buf_id = BufferId(raw); match OutputPinPayload::spec_read(s, p0) { Err(e) => Err(e), Ok((pin, p1)) => match ParamPin::spec_read(s, p1) { Err(e) => Err(e), Ok((process_group_light, p2)) => match ErrorInfo::spec_read(s, p2) { Err(e) => Err(e), Ok((error_info, p3)) => match rd_u32(s, p3) { Err(e) => Err(e), Ok((timestamp0, p4)) => match rd_u32(s, p4) { Err(e) => Err(e), Ok((timestamp1, p5)) => match rd_u8(s, p5) { Err(e) => Err(e), Ok((stream_handle, p6)) => match rd_u8(s, p6) { Err(e) => Err(e), Ok((raw, p7)) => match RespType::spec_from_u32(raw as u32) { Err(e) => Err(e), Ok(resp_type) => match rd_u8(s, p7) { Err(e) => Err(e), Ok((pin_id, p8)) => match rd_u8(s, p8) { Err(e) => Err(e), Ok((acc_id, p9)) => match rd_take(s, p9, 4) { Err(e) => Err(e), Ok(p10) => Ok((RespInfo { buf_id, pin, process_group_light, error_info, timestamp: array_of(seq![timestamp0].push(timestamp1)), stream_handle, resp_type, pin_id, acc_id }, p10)) } } } } } } } } } } } } }
    }

    open spec fn spec_normalize(&self) -> Self {
        *self
    }

    fn validate(&self) -> (r: Result<()>) {
        Ok(())
    }

    fn chunks(&self) -> (r: Vec<Vec<u8>>) {
        let mut v: Vec<Vec<u8>> = Vec::new();
        v.push(chunk_u64(self.buf_id.get()));
        let mut inner = self.pin.chunks();
        v.append(&mut inner);
        let mut inner = self.process_group_light.chunks();
        v.append(&mut inner);
        let mut inner = self.error_info.chunks();
        v.append(&mut inner);
        v.push(chunk_u32(self.timestamp[0]));
        v.push(chunk_u32(self.timestamp[1]));
        v.push(chunk_u8(self.stream_handle));
        v.push(chunk_u8(self.resp_type.as_u32() as u8));
        v.push(chunk_u8(self.pin_id));
        v.push(chunk_u8(self.acc_id));
        v.push(chunk_pad(4));
        proof { assert(chunks_view(v@) =~= self.spec_chunks()); }
        v
    }

    fn read_at(buf: &[u8], pos: usize) -> (r: Result<(Self, usize)>) {
        let p = pos;
        let (raw, p) = read_u64(buf, p)?;
        let buf_id = BufferId(raw);
        let (pin, p) = OutputPinPayload::read_at(buf, p)?;
        let (process_group_light, p) = ParamPin::read_at(buf, p)?;
        let (error_info, p) = ErrorInfo::read_at(buf, p)?;
        let (timestamp0, p) = read_u32(buf, p)?;
        let (timestamp1, p) = read_u32(buf, p)?;
        let timestamp = [timestamp0, timestamp1];
        proof {
            assert(timestamp@ =~= seq![timestamp0].push(timestamp1));
            lemma_array_of(timestamp, seq![timestamp0].push(timestamp1));
        }
        let (stream_handle, p) = read_u8(buf, p)?;
        let (raw, p) = read_u8(buf, p)?;
        let resp_type = RespType::from_u32(raw as u32)?;
        let (pin_id, p) = read_u8(buf, p)?;
        let (acc_id, p) = read_u8(buf, p)?;
        let p = skip(buf, p, 4)?;
        Ok((RespInfo { buf_id, pin, process_group_light, error_info, timestamp, stream_handle, resp_type, pin_id, acc_id }, p))
    }

    proof fn lemma_size_bound() {
    }

    proof fn lemma_reserialize(&self, other: &Self) {
    }

    proof fn lemma_size(&self) {
        self.pin.lemma_size();
        self.process_group_light.lemma_size();
        self.error_info.lemma_size();
    }

    #[verifier::rlimit(60)]
    proof fn lemma_read_back(&self, s: Seq<u8>, pos: usize) {
        self.pin.lemma_size();
        self.pin.lemma_read_back(s, (pos + 8) as usize);
        self.process_group_light.lemma_size();
        self.process_group_light.lemma_read_back(s, (pos + 24) as usize);
        self.error_info.lemma_size();
        self.error_info.lemma_read_back(s, (pos + 40) as usize);
        assert(self.timestamp@ =~= seq![self.timestamp[0]].push(self.timestamp[1]));
        lemma_array_of(self.timestamp, seq![self.timestamp[0]].push(self.timestamp[1]));
    }
}

/// Proxy error info (`struct ipu_fw_isys_proxy_error_info_abi`).
#[derive(Debug, Clone, Copy, PartialEq, Eq)]
pub struct ProxyErrorInfo {
    pub error: ProxyError,
    pub error_details: u32,
}

impl Default for ProxyErrorInfo {
    fn default() -> (r: Self)
        ensures
            r == (ProxyErrorInfo { error: ProxyError::NoError, error_details: 0 }),
    {
        ProxyErrorInfo { error: ProxyError::NoError, error_details: 0 }
    }
}

impl View for ProxyErrorInfo {
    type V = ProxyErrorInfo;

    open spec fn view(&self) -> ProxyErrorInfo {
        *self
    }
}

impl Marshal for ProxyErrorInfo {
    const SERIALIZED_SIZE: usize = SIZEOF_PROXY_ERROR_INFO;

    open spec fn spec_validate(&self) -> Result<()> {
        Ok(())
    }

    open spec fn spec_chunks(&self) -> Seq<Seq<u8>> {
        Seq::<Seq<u8>>::empty().push(c_u32(self.error.spec_as_u32())).push(c_u32(self.error_details))
    }

    open spec fn spec_read(s: Seq<u8>, pos: usize) -> Result<(Self, usize)> {
        match rd_u32(s, pos) { Err(e) => Err(e), Ok((raw, p0)) => match ProxyError::spec_from_u32(raw) { Err(e) => Err(e), Ok(error) => match rd_u32(s, p0) { Err(e) => Err(e), Ok((error_details, p1)) => Ok((ProxyErrorInfo { error, error_details }, p1)) } } }
    }

    open spec fn spec_normalize(&self) -> Self {
        *self
    }

    fn validate(&self) -> (r: Result<()>) {
        Ok(())
    }

    fn chunks(&self) -> (r: Vec<Vec<u8>>) {
        let mut v: Vec<Vec<u8>> = Vec::new();
        v.push(chunk_u32(self.error.as_u32()));
        v.push(chunk_u32(self.error_details));
        proof { assert(chunks_view(v@) =~= self.spec_chunks()); }
        v
    }

    fn read_at(buf: &[u8], pos: usize) -> (r: Result<(Self, usize)>) {
        let p = pos;
        let (raw, p) = read_u32(buf, p)?;
        let error = ProxyError::from_u32(raw)?;
        let (error_details, p) = read_u32(buf, p)?;
        Ok((ProxyErrorInfo { error, error_details }, p))
    }

    proof fn lemma_size_bound() {
    }

    proof fn lemma_reserialize(&self, other: &Self) {
    }

    proof fn lemma_size(&self) {
        
    }

    proof fn lemma_read_back(&self, s: Seq<u8>, pos: usize) {
        
    }
}

/// Proxy response info (`struct ipu_fw_isys_proxy_resp_info_abi`).
#[derive(Debug, Clone, Copy, PartialEq, Eq, Default)]
pub struct ProxyRespInfo {
    pub request_id: u32,
    pub error_info: ProxyErrorInfo,
}

impl View for ProxyRespInfo {
    type V = ProxyRespInfo;

    open spec fn view(&self) -> ProxyRespInfo {
        *self
    }
}

impl Marshal for ProxyRespInfo {
    const SERIALIZED_SIZE: usize = SIZEOF_PROXY_RESP_INFO;

    open spec fn spec_validate(&self) -> Result<()> {
        Ok(())
    }

    open spec fn spec_chunks(&self) -> Seq<Seq<u8>> {
        (Seq::<Seq<u8>>::empty().push(c_u32(self.request_id)) + self.error_info.spec_chunks())
    }

    open spec fn spec_read(s: Seq<u8>, pos: usize) -> Result<(Self, usize)> {
        match rd_u32(s, pos) { Err(e) => Err(e), Ok((request_id, p0)) => match ProxyErrorInfo::spec_read(s, p0) { Err(e) => Err(e), Ok((error_info, p1)) => Ok((ProxyRespInfo { request_id, error_info }, p1)) } }
    }

    open spec fn spec_normalize(&self) -> Self {
        *self
    }

    fn validate(&self) -> (r: Result<()>) {
        Ok(())
    }

    fn chunks(&self) -> (r: Vec<Vec<u8>>) {
        let mut v: Vec<Vec<u8>> = Vec::new();
        v.push(chunk_u32(self.request_id));
        let mut inner = self.error_info.chunks();
        v.append(&mut inner);
        proof { assert(chunks_view(v@) =~= self.spec_chunks()); }
        v
    }

    fn read_at(buf: &[u8], pos: usize) -> (r: Result<(Self, usize)>) {
        let p = pos;
        let (request_id, p) = read_u32(buf, p)?;
        let (error_info, p) = ProxyErrorInfo::read_at(buf, p)?;
        Ok((ProxyRespInfo { request_id, error_info }, p))
    }

    proof fn lemma_size_bound() {
    }

    proof fn lemma_reserialize(&self, other: &Self) {
    }

    proof fn lemma_size(&self) {
        self.error_info.lemma_size();
    }

    proof fn lemma_read_back(&self, s: Seq<u8>, pos: usize) {
        self.error_info.lemma_size();
        self.error_info.lemma_read_back(s, (pos + 4) as usize);
    }
}

// ===========================================================================
// Laws of the serialization.

/// Parsing the serialization of a valid value yields the value, normalized:
/// the value itself for every message except a frame buffer set, whose
/// unpopulated payload slots come back as zero payloads.
pub proof fn lemma_parse_serialized<T: Marshal>(v: T)
    requires
        v.spec_validate() is Ok,
    ensures
        spec_parse::<T>(flat(v.spec_chunks())) == Ok::<T::V, Error>(v.spec_normalize()),
{
    let s = flat(v.spec_chunks());
    T::lemma_size_bound();
    v.lemma_size();
    assert(s.subrange(0, s.len() as int) =~= s);
    v.lemma_read_back(s, 0);
}

/// Serializing what was parsed from a valid value's serialization reproduces
/// the same bytes.
pub proof fn lemma_serialization_stable<T: Marshal>(v: T, parsed: T)
    requires
        v.spec_validate() is Ok,
        spec_parse::<T>(flat(v.spec_chunks())) == Ok::<T::V, Error>(parsed@),
    ensures
        parsed.spec_validate() is Ok,
        flat(parsed.spec_chunks()) == flat(v.spec_chunks()),
{
    lemma_parse_serialized(v);
    v.lemma_reserialize(&parsed);
}

// ===========================================================================
// ABI byte layouts, field by field at fixed offsets (all integers
// little-endian, flags as 0 or 1).

/// A resolution: width at 0..4, height at 4..8.
pub proof fn lemma_resolution_layout(r: Resolution)
    ensures
        flat(r.spec_chunks()) == le_u32_bytes(r.width) + le_u32_bytes(r.height),
{
    lemma_flat_single(le_u32_bytes(r.width));
}

/// An output-pin payload: buffer id at 0..8, address at 8..12, 4 zero bytes.
pub proof fn lemma_payload_layout(p: OutputPinPayload)
    ensures
        flat(p.spec_chunks()) == le_u64_bytes(p.out_buf_id.0) + le_u32_bytes(p.addr.0) + c_pad(4),
{
}

/// A parameter pin: buffer id at 0..8, address at 8..12, 4 zero bytes.
pub proof fn lemma_param_pin_layout(p: ParamPin)
    ensures
        flat(p.spec_chunks()) == le_u64_bytes(p.param_buf_id.0) + le_u32_bytes(p.addr.0) + c_pad(4),
{
}

/// An output pin: resolution at 0..8, stride at 8..12, watermark at 12..16,
/// then the bytes send_irq, input_pin_id, pt, ft, online, and 3 zero bytes.
pub proof fn lemma_output_pin_layout(p: OutputPinInfo)
    ensures
        flat(p.spec_chunks()) == le_u32_bytes(p.output_res.width) + le_u32_bytes(p.output_res.height) + le_u32_bytes(
            p.stride,
        ) + le_u32_bytes(p.watermark_in_lines) + seq![p.send_irq, p.input_pin_id, p.pt, p.ft, p.online] + c_pad(3),
{
    lemma_resolution_layout(p.output_res);
    assert(flat(p.spec_chunks()) =~= le_u32_bytes(p.output_res.width) + le_u32_bytes(p.output_res.height)
        + le_u32_bytes(p.stride) + le_u32_bytes(p.watermark_in_lines) + seq![p.send_irq, p.input_pin_id, p.pt, p.ft, p.online]
        + c_pad(3));
}

/// An input pin: resolution at 0..8, then the bytes dt, mipi_store_mode,
/// bits_per_pix, and 1 zero byte.
pub proof fn lemma_input_pin_layout(p: InputPinInfo)
    ensures
        flat(p.spec_chunks()) == le_u32_bytes(p.input_res.width) + le_u32_bytes(p.input_res.height) + seq![
            p.dt,
            p.mipi_store_mode,
            p.bits_per_pix,
        ] + c_pad(1),
{
    lemma_resolution_layout(p.input_res);
    assert(flat(p.spec_chunks()) =~= le_u32_bytes(p.input_res.width) + le_u32_bytes(p.input_res.height) + seq![
        p.dt,
        p.mipi_store_mode,
        p.bits_per_pix,
    ] + c_pad(1));
}

/// An ISA configuration: the two resolutions at 0..16, then the `cfg` word
/// at 16..20, whose bit 0 is blc, 1 lsc, 2 dpc, 3 downscaler, 4 awb, 5 af,
/// 6 ae, bits 7..15 paf, bit 15 send_irq_stats_ready, bit 16
/// send_resp_stats_ready, and no bit above.
pub proof fn lemma_isa_cfg_layout(c: IsaConfig)
    ensures
        flat(c.spec_chunks()) == le_u32_bytes(c.isa_res[0].width) + le_u32_bytes(c.isa_res[0].height) + le_u32_bytes(
            c.isa_res[1].width,
        ) + le_u32_bytes(c.isa_res[1].height) + le_u32_bytes(spec_pack_cfg(c)),
        (spec_pack_cfg(c) & 1 != 0) == c.blc,
        (spec_pack_cfg(c) & 0x2 != 0) == c.lsc,
        (spec_pack_cfg(c) & 0x4 != 0) == c.dpc,
        (spec_pack_cfg(c) & 0x8 != 0) == c.downscaler,
        (spec_pack_cfg(c) & 0x10 != 0) == c.awb,
        (spec_pack_cfg(c) & 0x20 != 0) == c.af,
        (spec_pack_cfg(c) & 0x40 != 0) == c.ae,
        ((spec_pack_cfg(c) >> 7u32) & 0xff) as u8 == c.paf,
        (spec_pack_cfg(c) & 0x8000 != 0) == c.send_irq_stats_ready,
        (spec_pack_cfg(c) & 0x10000 != 0) == c.send_resp_stats_ready,
        spec_pack_cfg(c) >> 17u32 == 0,
{
    lemma_cfg_word_bits(
        c.blc,
        c.lsc,
        c.dpc,
        c.downscaler,
        c.awb,
        c.af,
        c.ae,
        c.paf,
        c.send_irq_stats_ready,
        c.send_resp_stats_ready,
        spec_pack_cfg(c),
    );
    lemma_resolution_layout(c.isa_res[0]);
    lemma_resolution_layout(c.isa_res[1]);
    let r = c.isa_res@;
    reveal_with_fuel(slot_chunks, 3);
    assert(slot_chunks(r, 2) =~= r[0].spec_chunks() + r[1].spec_chunks());
    assert(flat(c.spec_chunks()) =~= le_u32_bytes(c.isa_res[0].width) + le_u32_bytes(c.isa_res[0].height)
        + le_u32_bytes(c.isa_res[1].width) + le_u32_bytes(c.isa_res[1].height) + le_u32_bytes(spec_pack_cfg(c)));
}

/// A cropping: top at 0..4, left at 4..8, bottom at 8..12, right at 12..16.
pub proof fn lemma_cropping_layout(c: Cropping)
    ensures
        flat(c.spec_chunks()) == le_u32_bytes(c.top_offset as u32) + le_u32_bytes(c.left_offset as u32) + le_u32_bytes(
            c.bottom_offset as u32,
        ) + le_u32_bytes(c.right_offset as u32),
{
}

/// A send-queue token: buffer handle at 0..8, payload address at 8..12,
/// send type at 12..16.
pub proof fn lemma_send_token_layout(t: SendQueueToken)
    ensures
        flat(t.spec_chunks()) == le_u64_bytes(t.buf_handle.0) + le_u32_bytes(t.payload.0) + le_u32_bytes(
            t.send_type.spec_as_u32(),
        ),
{
}

/// A proxy send-queue token: request id, region index, offset, value, each
/// four bytes in that order.
pub proof fn lemma_proxy_send_token_layout(t: ProxySendQueueToken)
    ensures
        flat(t.spec_chunks()) == le_u32_bytes(t.request_id) + le_u32_bytes(t.region_index) + le_u32_bytes(t.offset)
            + le_u32_bytes(t.value),
{
}

/// An error info: error code at 0..4, details at 4..8.
pub proof fn lemma_error_info_layout(e: ErrorInfo)
    ensures
        flat(e.spec_chunks()) == le_u32_bytes(e.error.spec_as_u32()) + le_u32_bytes(e.error_details),
{
}

/// A proxy error info: error code at 0..4, details at 4..8.
pub proof fn lemma_proxy_error_info_layout(e: ProxyErrorInfo)
    ensures
        flat(e.spec_chunks()) == le_u32_bytes(e.error.spec_as_u32()) + le_u32_bytes(e.error_details),
{
}

/// A proxy response: request id at 0..4, error code at 4..8, details at 8..12.
pub proof fn lemma_proxy_resp_info_layout(r: ProxyRespInfo)
    ensures
        flat(r.spec_chunks()) == le_u32_bytes(r.request_id) + le_u32_bytes(r.error_info.error.spec_as_u32())
            + le_u32_bytes(r.error_info.error_details),
{
    lemma_proxy_error_info_layout(r.error_info);
    lemma_flat_single(le_u32_bytes(r.request_id));
}

/// A response: buffer id at 0..8, pin payload at 8..24, parameter pin at
/// 24..40, error code at 40..44 and details at 44..48, timestamps at 48..52
/// and 52..56, then the bytes stream_handle, resp_type, pin_id, acc_id, and
/// 4 zero bytes.
pub proof fn lemma_resp_info_layout(r: RespInfo)
    ensures
        flat(r.spec_chunks()) == le_u64_bytes(r.buf_id.0) + le_u64_bytes(r.pin.out_buf_id.0) + le_u32_bytes(
            r.pin.addr.0,
        ) + c_pad(4) + le_u64_bytes(r.process_group_light.param_buf_id.0) + le_u32_bytes(
            r.process_group_light.addr.0,
        ) + c_pad(4) + le_u32_bytes(r.error_info.error.spec_as_u32()) + le_u32_bytes(r.error_info.error_details)
            + le_u32_bytes(r.timestamp[0]) + le_u32_bytes(r.timestamp[1]) + seq![
            r.stream_handle,
            r.resp_type.spec_as_u32() as u8,
            r.pin_id,
            r.acc_id,
        ] + c_pad(4),
{
    lemma_payload_layout(r.pin);
    lemma_param_pin_layout(r.process_group_light);
    lemma_error_info_layout(r.error_info);
    lemma_flat_single(le_u64_bytes(r.buf_id.0));
    assert(flat(r.spec_chunks()) =~= le_u64_bytes(r.buf_id.0) + le_u64_bytes(r.pin.out_buf_id.0) + le_u32_bytes(
        r.pin.addr.0,
    ) + c_pad(4) + le_u64_bytes(r.process_group_light.param_buf_id.0) + le_u32_bytes(r.process_group_light.addr.0)
        + c_pad(4) + le_u32_bytes(r.error_info.error.spec_as_u32()) + le_u32_bytes(r.error_info.error_details)
        + le_u32_bytes(r.timestamp[0]) + le_u32_bytes(r.timestamp[1]) + seq![
        r.stream_handle,
        r.resp_type.spec_as_u32() as u8,
        r.pin_id,
        r.acc_id,
    ] + c_pad(4));
}

// ===========================================================================
// Reads that cannot fail.

/// `n` records in a row read without error wherever each of them does.
pub(crate) proof fn lemma_read_seq_ok<T: Marshal>(s: Seq<u8>, pos: usize, n: nat)
    requires
        pos + n * T::SERIALIZED_SIZE <= usize::MAX,
        forall|p: usize|
            pos <= p && p + T::SERIALIZED_SIZE <= pos + n * T::SERIALIZED_SIZE ==> (#[trigger] T::spec_read(s, p)
                matches Ok((_, q)) && q == p + T::SERIALIZED_SIZE),
    ensures
        read_seq::<T>(s, pos, n) matches Ok((_, q)) && q == pos + n * T::SERIALIZED_SIZE,
    decreases n,
{
    if n > 0 {
        let k = (n - 1) as nat;
        let z = T::SERIALIZED_SIZE as int;
        assert(k * z + z == n * z) by (nonlinear_arith)
            requires
                k == n - 1,
        ;
        assert(0 <= k * z) by (nonlinear_arith)
            requires
                0 <= z,
        ;
        lemma_read_seq_ok::<T>(s, pos, k);
        let p = (pos + k * z) as usize;
        assert(T::spec_read(s, p) matches Ok((_, q)) && q == p + z);
    }
}

/// A resolution reads without error wherever its bytes fit.
pub(crate) proof fn lemma_read_ok_resolution(s: Seq<u8>, p: usize)
    requires
        p + 8 <= s.len(),
        p + 8 <= usize::MAX,
    ensures
        Resolution::spec_read(s, p) matches Ok((_, q)) && q == p + 8,
{
}

/// A cropping reads without error wherever its bytes fit.
pub(crate) proof fn lemma_read_ok_cropping(s: Seq<u8>, p: usize)
    requires
        p + 16 <= s.len(),
        p + 16 <= usize::MAX,
    ensures
        Cropping::spec_read(s, p) matches Ok((_, q)) && q == p + 16,
{
}

/// An input pin reads without error wherever its bytes fit.
pub(crate) proof fn lemma_read_ok_input_pin(s: Seq<u8>, p: usize)
    requires
        p + 12 <= s.len(),
        p + 12 <= usize::MAX,
    ensures
        InputPinInfo::spec_read(s, p) matches Ok((_, q)) && q == p + 12,
{
    lemma_read_ok_resolution(s, p);
}

/// An output pin reads without error wherever its bytes fit.
pub(crate) proof fn lemma_read_ok_output_pin(s: Seq<u8>, p: usize)
    requires
        p + 24 <= s.len(),
        p + 24 <= usize::MAX,
    ensures
        OutputPinInfo::spec_read(s, p) matches Ok((_, q)) && q == p + 24,
{
    lemma_read_ok_resolution(s, p);
}

/// An ISA configuration reads without error wherever its bytes fit.
pub(crate) proof fn lemma_read_ok_isa_cfg(s: Seq<u8>, p: usize)
    requires
        p + 20 <= s.len(),
        p + 20 <= usize::MAX,
    ensures
        IsaConfig::spec_read(s, p) matches Ok((_, q)) && q == p + 20,
{
    assert forall|x: usize| p <= x && x + 8 <= p + 2 * 8 implies (#[trigger] Resolution::spec_read(s, x)
        matches Ok((_, q)) && q == x + 8) by {
        lemma_read_ok_resolution(s, x);
    }
    lemma_read_seq_ok::<Resolution>(s, p, 2);
}

/// An output-pin payload reads without error wherever its bytes fit.
pub(crate) proof fn lemma_read_ok_payload(s: Seq<u8>, p: usize)
    requires
        p + 16 <= s.len(),
        p + 16 <= usize::MAX,
    ensures
        OutputPinPayload::spec_read(s, p) matches Ok((_, q)) && q == p + 16,
{
}

/// A parameter pin reads without error wherever its bytes fit.
pub(crate) proof fn lemma_read_ok_param_pin(s: Seq<u8>, p: usize)
    requires
        p + 16 <= s.len(),
        p + 16 <= usize::MAX,
    ensures
        ParamPin::spec_read(s, p) matches Ok((_, q)) && q == p + 16,
{
}

/// Reading a response. A response serializes to 64 bytes that read back as
/// itself. Any buffer shorter than 64 bytes is too small. In a longer one
/// the ISYS error code (little-endian at offsets 40..44, at most 12) is
/// checked first, then the response type (offset 57, at most 17); past
/// those checks the read succeeds, with the stream handle of offset 56, the
/// pin id of offset 58 and the codes as read.
pub proof fn lemma_resp_info_read(r: RespInfo, s: Seq<u8>)
    ensures
        flat(r.spec_chunks()).len() == 64,
        spec_deserialize::<RespInfo>(flat(r.spec_chunks())) == Ok::<RespInfo, Error>(r),
        s.len() < 64 ==> spec_deserialize::<RespInfo>(s) == Err::<RespInfo, Error>(
            Error::BufferTooSmall { expected: 64, actual: s.len() as usize },
        ),
        s.len() >= 64 && le_u32_value(s.subrange(40, 44)) > 12 ==> spec_deserialize::<RespInfo>(s) == Err::<
            RespInfo,
            Error,
        >(Error::InvalidEnum { field: "isys_error", value: le_u32_value(s.subrange(40, 44)) }),
        s.len() >= 64 && le_u32_value(s.subrange(40, 44)) <= 12 && s[57] > 17 ==> spec_deserialize::<RespInfo>(s)
            == Err::<RespInfo, Error>(Error::InvalidEnum { field: "resp_type", value: s[57] as u32 }),
        s.len() >= 64 && le_u32_value(s.subrange(40, 44)) <= 12 && s[57] <= 17 ==> (spec_deserialize::<RespInfo>(s) matches Ok(d) && {
            &&& d.error_info.error.spec_as_u32() == le_u32_value(s.subrange(40, 44))
            &&& d.stream_handle == s[56]
            &&& d.resp_type.spec_as_u32() == s[57]
            &&& d.pin_id == s[58]
        }),
{
    lemma_resp_info_roundtrip(r);
    if s.len() >= 64 {
        lemma_resp_info_codes(s);
    }
}

/// A response reads back from its serialization as itself.
proof fn lemma_resp_info_roundtrip(r: RespInfo)
    ensures
        flat(r.spec_chunks()).len() == 64,
        spec_deserialize::<RespInfo>(flat(r.spec_chunks())) == Ok::<RespInfo, Error>(r),
{
    lemma_record_sizes();
    r.lemma_size();
    lemma_parse_serialized(r);
}

/// In 64 bytes or more, a response reads up to its codes: the ISYS error
/// code, then the response type decide the outcome.
proof fn lemma_resp_info_codes(s: Seq<u8>)
    requires
        s.len() >= 64,
    ensures
        RespInfo::spec_read(s, 0) == (match IsysError::spec_from_u32(le_u32_value(s.subrange(40, 44))) {
            Err(e) => Err(e),
            Ok(error) => match RespType::spec_from_u32(s[57] as u32) {
                Err(e) => Err(e),
                Ok(resp_type) => Ok((RespInfo {
                    buf_id: BufferId(le_u64_value(s.subrange(0, 8))),
                    pin: OutputPinPayload::spec_read(s, 8)->Ok_0.0,
                    process_group_light: ParamPin::spec_read(s, 24)->Ok_0.0,
                    error_info: ErrorInfo { error, error_details: le_u32_value(s.subrange(44, 48)) },
                    timestamp: array_of(seq![le_u32_value(s.subrange(48, 52))].push(le_u32_value(s.subrange(52, 56)))),
                    stream_handle: s[56],
                    resp_type,
                    pin_id: s[58],
                    acc_id: s[59],
                }, 64usize)),
            },
        }),
{
    lemma_read_ok_payload(s, 8);
    lemma_read_ok_param_pin(s, 24);
}

// ===========================================================================
// Queue routing.

/// Message-queue index of a stream command: the stream handle offset by
/// `ISYS_MSG_INDEX`.
pub fn message_queue_index(stream: StreamHandle) -> (r: usize)
    ensures
        r == stream.spec_get() + ISYS_MSG_INDEX,
{
    stream.get() as usize + ISYS_MSG_INDEX
}

/// Queue index of proxy commands (`ISYS_PROXY_INDEX`).
pub fn proxy_queue_index() -> (r: usize)
    ensures
        r == ISYS_PROXY_INDEX,
{
    ISYS_PROXY_INDEX
}

} // verus!

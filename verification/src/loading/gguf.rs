//! The GGUF model file format: header, metadata key/value pairs and tensor
//! descriptions, parsed from bytes.
use vstd::prelude::*;
use vstd::bytes::{
    spec_u16_from_le_bytes, spec_u32_from_le_bytes, spec_u64_from_le_bytes, u16_from_le_bytes,
    u32_from_le_bytes, u64_from_le_bytes,
};
use vstd::slice::slice_subrange;
use vstd::string::*;
use vstd::utf8::{decode_utf8, valid_utf8};
use crate::base::dtype::{Shape, prefix_fits, prod, suffix_fits};
use crate::error::{OxideError, OxideResult};
use crate::text::{decimal, hex_fixed, str_eq, u32_to_hex8, usize_to_string};

verus! {

/// GGML tensor element encodings.
#[allow(non_camel_case_types)]
#[derive(Debug, Clone, Copy, PartialEq, Eq, Structural)]
pub enum GgmlDType {
    F32,
    F16,
    Q4_0,
    Q4_1,
    Q5_0,
    Q5_1,
    Q8_0,
    Q8_1,
    Q2K,
    Q3K,
    Q4K,
    Q5K,
    Q6K,
    Q8K,
    BF16,
}

/// The encoding a file's type code names, if any: codes 0 to 3 and 6 to 15.
pub open spec fn spec_ggml_from_u32(val: u32) -> Option<GgmlDType> {
    if val == 0 { Some(GgmlDType::F32) }
    else if val == 1 { Some(GgmlDType::F16) }
    else if val == 2 { Some(GgmlDType::Q4_0) }
    else if val == 3 { Some(GgmlDType::Q4_1) }
    else if val == 6 { Some(GgmlDType::Q5_0) }
    else if val == 7 { Some(GgmlDType::Q5_1) }
    else if val == 8 { Some(GgmlDType::Q8_0) }
    else if val == 9 { Some(GgmlDType::Q8_1) }
    else if val == 10 { Some(GgmlDType::Q2K) }
    else if val == 11 { Some(GgmlDType::Q3K) }
    else if val == 12 { Some(GgmlDType::Q4K) }
    else if val == 13 { Some(GgmlDType::Q5K) }
    else if val == 14 { Some(GgmlDType::Q6K) }
    else if val == 15 { Some(GgmlDType::Q8K) }
    else { None }
}

/// The GGML type table: code 0 is `F32`, 1 `F16`, 2 `Q4_0`, 3 `Q4_1`, 6
/// `Q5_0`, 7 `Q5_1`, 8 `Q8_0`, 9 `Q8_1`, 10 `Q2K`, 11 `Q3K`, 12 `Q4K`, 13
/// `Q5K`, 14 `Q6K`, 15 `Q8K`, and no code names `BF16`; codes 4, 5 and
/// those above 15 name no encoding. Each encoding has exactly one code.
pub proof fn lemma_ggml_code_table(n: u32)
    ensures
        (spec_ggml_from_u32(n) == Some(GgmlDType::F32)) == (n == 0),
        (spec_ggml_from_u32(n) == Some(GgmlDType::F16)) == (n == 1),
        (spec_ggml_from_u32(n) == Some(GgmlDType::Q4_0)) == (n == 2),
        (spec_ggml_from_u32(n) == Some(GgmlDType::Q4_1)) == (n == 3),
        (spec_ggml_from_u32(n) == Some(GgmlDType::Q5_0)) == (n == 6),
        (spec_ggml_from_u32(n) == Some(GgmlDType::Q5_1)) == (n == 7),
        (spec_ggml_from_u32(n) == Some(GgmlDType::Q8_0)) == (n == 8),
        (spec_ggml_from_u32(n) == Some(GgmlDType::Q8_1)) == (n == 9),
        (spec_ggml_from_u32(n) == Some(GgmlDType::Q2K)) == (n == 10),
        (spec_ggml_from_u32(n) == Some(GgmlDType::Q3K)) == (n == 11),
        (spec_ggml_from_u32(n) == Some(GgmlDType::Q4K)) == (n == 12),
        (spec_ggml_from_u32(n) == Some(GgmlDType::Q5K)) == (n == 13),
        (spec_ggml_from_u32(n) == Some(GgmlDType::Q6K)) == (n == 14),
        (spec_ggml_from_u32(n) == Some(GgmlDType::Q8K)) == (n == 15),
        spec_ggml_from_u32(n) != Some(GgmlDType::BF16),
        spec_ggml_from_u32(n) is None == (n == 4 || n == 5 || n > 15),
{
}

/// The message for an unknown encoding code.
pub open spec fn unknown_ggml_message(val: u32) -> Seq<char> {
    "Unknown GGML dtype: "@ + decimal(val as nat)
}

impl GgmlDType {
    /// The encoding named by a type code; other codes are refused.
    pub fn from_u32(val: u32) -> (r: OxideResult<Self>)
        ensures
            spec_ggml_from_u32(val) matches Some(d) ==> r matches Ok(x) && x == d,
            spec_ggml_from_u32(val) is None ==> (r matches Err(OxideError::InvalidArgument(m))
                && m@ == unknown_ggml_message(val)),
    {
        match val {
            0 => Ok(GgmlDType::F32),
            1 => Ok(GgmlDType::F16),
            2 => Ok(GgmlDType::Q4_0),
            3 => Ok(GgmlDType::Q4_1),
            6 => Ok(GgmlDType::Q5_0),
            7 => Ok(GgmlDType::Q5_1),
            8 => Ok(GgmlDType::Q8_0),
            9 => Ok(GgmlDType::Q8_1),
            10 => Ok(GgmlDType::Q2K),
            11 => Ok(GgmlDType::Q3K),
            12 => Ok(GgmlDType::Q4K),
            13 => Ok(GgmlDType::Q5K),
            14 => Ok(GgmlDType::Q6K),
            15 => Ok(GgmlDType::Q8K),
            _ => {
                let mut m = String::from_str("Unknown GGML dtype: ");
                m.append(usize_to_string(val as usize).as_str());
                proof {
                    reveal_strlit("Unknown GGML dtype: ");
                }
                Err(OxideError::InvalidArgument(m))
            },
        }
    }

    /// Elements per block: 1 for plain floats, 32 for the classic quantized
    /// encodings, 256 for the K-quants.
    pub fn block_size(&self) -> (r: usize)
        ensures
            r == (match *self {
                GgmlDType::F32 | GgmlDType::F16 | GgmlDType::BF16 => 1usize,
                GgmlDType::Q4_0 | GgmlDType::Q4_1 | GgmlDType::Q5_0 | GgmlDType::Q5_1
                | GgmlDType::Q8_0 | GgmlDType::Q8_1 => 32usize,
                _ => 256usize,
            }),
    {
        match self {
            GgmlDType::F32 | GgmlDType::F16 | GgmlDType::BF16 => 1,
            GgmlDType::Q4_0 | GgmlDType::Q4_1 | GgmlDType::Q5_0 | GgmlDType::Q5_1 => 32,
            GgmlDType::Q8_0 | GgmlDType::Q8_1 => 32,
            GgmlDType::Q2K | GgmlDType::Q3K | GgmlDType::Q4K | GgmlDType::Q5K | GgmlDType::Q6K
            | GgmlDType::Q8K => 256,
        }
    }

    /// Bytes per block.
    pub fn type_size(&self) -> (r: usize)
        ensures
            r == (match *self {
                GgmlDType::F32 => 4usize,
                GgmlDType::F16 => 2usize,
                GgmlDType::BF16 => 2usize,
                GgmlDType::Q4_0 => 18usize,
                GgmlDType::Q4_1 => 20usize,
                GgmlDType::Q5_0 => 22usize,
                GgmlDType::Q5_1 => 24usize,
                GgmlDType::Q8_0 => 34usize,
                GgmlDType::Q8_1 => 36usize,
                GgmlDType::Q2K => 276usize,
                GgmlDType::Q3K => 131usize,
                GgmlDType::Q4K => 144usize,
                GgmlDType::Q5K => 176usize,
                GgmlDType::Q6K => 420usize,
                GgmlDType::Q8K => 642usize,
            }),
    {
        match self {
            GgmlDType::F32 => 4,
            GgmlDType::F16 => 2,
            GgmlDType::BF16 => 2,
            GgmlDType::Q4_0 => 18,
            GgmlDType::Q4_1 => 20,
            GgmlDType::Q5_0 => 22,
            GgmlDType::Q5_1 => 24,
            GgmlDType::Q8_0 => 34,
            GgmlDType::Q8_1 => 36,
            GgmlDType::Q2K => 2 + 1 + 0 + 1 + 16 + 64 * 16 / 4,
            GgmlDType::Q3K => 2 + 1 + 256 / 8 + 32 * 3,
            GgmlDType::Q4K => 2 + 2 + 12 + 128,
            GgmlDType::Q5K => 2 + 2 + 12 + 160,
            GgmlDType::Q6K => 2 + 2 + 256 / 8 + 128 * 3,
            GgmlDType::Q8K => 2 + 256 + 128 * 2 + 4 * 32,
        }
    }
}

/// The name `{:?}` prints for an encoding.
pub open spec fn ggml_debug_name(d: GgmlDType) -> Seq<char> {
    match d {
        GgmlDType::F32 => "F32"@,
        GgmlDType::F16 => "F16"@,
        GgmlDType::Q4_0 => "Q4_0"@,
        GgmlDType::Q4_1 => "Q4_1"@,
        GgmlDType::Q5_0 => "Q5_0"@,
        GgmlDType::Q5_1 => "Q5_1"@,
        GgmlDType::Q8_0 => "Q8_0"@,
        GgmlDType::Q8_1 => "Q8_1"@,
        GgmlDType::Q2K => "Q2K"@,
        GgmlDType::Q3K => "Q3K"@,
        GgmlDType::Q4K => "Q4K"@,
        GgmlDType::Q5K => "Q5K"@,
        GgmlDType::Q6K => "Q6K"@,
        GgmlDType::Q8K => "Q8K"@,
        GgmlDType::BF16 => "BF16"@,
    }
}

impl GgmlDType {
    /// The variant's name, as `{:?}` prints it.
    pub fn debug_name(&self) -> (r: &'static str)
        ensures
            r@ == ggml_debug_name(*self),
    {
        match self {
            GgmlDType::F32 => "F32",
            GgmlDType::F16 => "F16",
            GgmlDType::Q4_0 => "Q4_0",
            GgmlDType::Q4_1 => "Q4_1",
            GgmlDType::Q5_0 => "Q5_0",
            GgmlDType::Q5_1 => "Q5_1",
            GgmlDType::Q8_0 => "Q8_0",
            GgmlDType::Q8_1 => "Q8_1",
            GgmlDType::Q2K => "Q2K",
            GgmlDType::Q3K => "Q3K",
            GgmlDType::Q4K => "Q4K",
            GgmlDType::Q5K => "Q5K",
            GgmlDType::Q6K => "Q6K",
            GgmlDType::Q8K => "Q8K",
            GgmlDType::BF16 => "BF16",
        }
    }
}

/// A metadata value. Floating-point values are held as their IEEE-754 bit
/// patterns.
#[derive(Debug, Clone)]
pub enum GgufValue {
    Uint8(u8),
    Int8(i8),
    Uint16(u16),
    Int16(i16),
    Uint32(u32),
    Int32(i32),
    Float32(u32),
    Uint64(u64),
    Int64(i64),
    Float64(u64),
    Bool(bool),
    String(String),
}

/// A metadata value with its text as characters.
pub enum ValueModel {
    Uint8(u8),
    Int8(i8),
    Uint16(u16),
    Int16(i16),
    Uint32(u32),
    Int32(i32),
    Float32(u32),
    Uint64(u64),
    Int64(i64),
    Float64(u64),
    Bool(bool),
    Str(Seq<char>),
}

impl GgufValue {
    pub open spec fn model(&self) -> ValueModel {
        match *self {
            GgufValue::Uint8(x) => ValueModel::Uint8(x),
            GgufValue::Int8(x) => ValueModel::Int8(x),
            GgufValue::Uint16(x) => ValueModel::Uint16(x),
            GgufValue::Int16(x) => ValueModel::Int16(x),
            GgufValue::Uint32(x) => ValueModel::Uint32(x),
            GgufValue::Int32(x) => ValueModel::Int32(x),
            GgufValue::Float32(x) => ValueModel::Float32(x),
            GgufValue::Uint64(x) => ValueModel::Uint64(x),
            GgufValue::Int64(x) => ValueModel::Int64(x),
            GgufValue::Float64(x) => ValueModel::Float64(x),
            GgufValue::Bool(x) => ValueModel::Bool(x),
            GgufValue::String(s) => ValueModel::Str(s@),
        }
    }
}

/// Where and how a tensor is stored in the file.
#[derive(Debug, Clone)]
pub struct GgufTensorInfo {
    pub name: String,
    pub dims: Vec<u64>,
    pub dtype: GgmlDType,
    pub offset: u64,
}

/// A tensor description with its name as characters.
pub struct InfoModel {
    pub name: Seq<char>,
    pub dims: Seq<u64>,
    pub dtype: GgmlDType,
    pub offset: u64,
}

impl GgufTensorInfo {
    pub open spec fn model(&self) -> InfoModel {
        InfoModel { name: self.name@, dims: self.dims@, dtype: self.dtype, offset: self.offset }
    }
}

/// The header, the metadata as a map from keys to values (one pair per
/// key, in the order keys first appear, holding the last value the file
/// gives the key), and the tensor descriptions in file order.
pub struct GgufMetadata {
    pub version: u32,
    pub num_tensors: u64,
    pub num_kv: u64,
    pub metadata: Vec<(String, GgufValue)>,
    pub tensors: Vec<GgufTensorInfo>,
}

/// A parsed GGUF file, with text as characters.
pub struct MetadataModel {
    pub version: u32,
    pub num_tensors: u64,
    pub num_kv: u64,
    pub metadata: Seq<(Seq<char>, ValueModel)>,
    pub tensors: Seq<InfoModel>,
}

impl GgufMetadata {
    pub open spec fn model(&self) -> MetadataModel {
        MetadataModel {
            version: self.version,
            num_tensors: self.num_tensors,
            num_kv: self.num_kv,
            metadata: self.metadata@.map_values(|p: (String, GgufValue)| (p.0@, p.1.model())),
            tensors: self.tensors@.map_values(|t: GgufTensorInfo| t.model()),
        }
    }

    /// The value of `key`, or `None` when no pair has that key.
    pub fn get(&self, key: &str) -> (r: Option<&GgufValue>)
        ensures
            r is None <==> (forall|j: int| 0 <= j < self.metadata@.len() ==> (#[trigger] self.metadata@[j]).0@ != key@),
            r matches Some(v) ==> exists|j: int| {
                &&& 0 <= j < self.metadata@.len()
                &&& (#[trigger] self.metadata@[j]).0@ == key@
                &&& *v == self.metadata@[j].1
                &&& forall|k: int| j < k < self.metadata@.len() ==> (#[trigger] self.metadata@[k]).0@ != key@
            },
    {
        let mut i = self.metadata.len();
        while i > 0
            invariant
                i <= self.metadata@.len(),
                forall|k: int| i <= k < self.metadata@.len() ==> (#[trigger] self.metadata@[k]).0@ != key@,
            decreases i,
        {
            i = i - 1;
            if str_eq(self.metadata[i].0.as_str(), key) {
                return Some(&self.metadata[i].1);
            }
        }
        None
    }
}

/// The outcome of reading an item at some offset: the item and the offset
/// just after it; a refusal with an `InvalidArgument` message; or a read
/// past the end of the bytes, where the reader panics.
pub enum Parsed<T> {
    Done(T, int),
    Failed(Seq<char>),
    Overrun,
}

/// `k` bytes can be read at `off`.
pub open spec fn fits(d: Seq<u8>, off: int, k: int) -> bool {
    0 <= off && off + k <= d.len()
}

pub open spec fn rd_u16(d: Seq<u8>, off: int) -> u16 {
    spec_u16_from_le_bytes(d.subrange(off, off + 2))
}

pub open spec fn rd_u32(d: Seq<u8>, off: int) -> u32 {
    spec_u32_from_le_bytes(d.subrange(off, off + 4))
}

pub open spec fn rd_u64(d: Seq<u8>, off: int) -> u64 {
    spec_u64_from_le_bytes(d.subrange(off, off + 8))
}

/// A length-prefixed UTF-8 text at `off`: a little-endian `u64` byte count,
/// then that many bytes, refused with `bad` when they are not UTF-8.
pub open spec fn spec_parse_text(d: Seq<u8>, off: int, bad: Seq<char>) -> Parsed<Seq<char>> {
    if !fits(d, off, 8) {
        Parsed::Overrun
    } else {
        let n = rd_u64(d, off) as int;
        let s = off + 8;
        if !fits(d, s, n) {
            Parsed::Overrun
        } else if valid_utf8(d.subrange(s, s + n)) {
            Parsed::Done(decode_utf8(d.subrange(s, s + n)), s + n)
        } else {
            Parsed::Failed(bad)
        }
    }
}

/// A metadata value of type code `ty` at `off`: codes 0 to 10 are the
/// fixed-size integers, floats and the boolean, little-endian; 11 is a text;
/// other codes are refused.
pub open spec fn spec_parse_value(d: Seq<u8>, off: int, ty: u32) -> Parsed<ValueModel> {
    let width: int = if ty == 0 || ty == 1 || ty == 10 { 1 }
        else if ty == 2 || ty == 3 { 2 }
        else if ty == 4 || ty == 5 || ty == 6 { 4 }
        else { 8 };
    if ty <= 10 && !fits(d, off, width) {
        Parsed::Overrun
    } else if ty == 0 {
        Parsed::Done(ValueModel::Uint8(d[off]), off + 1)
    } else if ty == 1 {
        Parsed::Done(ValueModel::Int8(d[off] as i8), off + 1)
    } else if ty == 2 {
        Parsed::Done(ValueModel::Uint16(rd_u16(d, off)), off + 2)
    } else if ty == 3 {
        Parsed::Done(ValueModel::Int16(rd_u16(d, off) as i16), off + 2)
    } else if ty == 4 {
        Parsed::Done(ValueModel::Uint32(rd_u32(d, off)), off + 4)
    } else if ty == 5 {
        Parsed::Done(ValueModel::Int32(rd_u32(d, off) as i32), off + 4)
    } else if ty == 6 {
        Parsed::Done(ValueModel::Float32(rd_u32(d, off)), off + 4)
    } else if ty == 7 {
        Parsed::Done(ValueModel::Uint64(rd_u64(d, off)), off + 8)
    } else if ty == 8 {
        Parsed::Done(ValueModel::Int64(rd_u64(d, off) as i64), off + 8)
    } else if ty == 9 {
        Parsed::Done(ValueModel::Float64(rd_u64(d, off)), off + 8)
    } else if ty == 10 {
        Parsed::Done(ValueModel::Bool(d[off] != 0), off + 1)
    } else if ty == 11 {
        match spec_parse_text(d, off, "Invalid UTF-8 in string value"@) {
            Parsed::Done(s, o) => Parsed::Done(ValueModel::Str(s), o),
            Parsed::Failed(m) => Parsed::Failed(m),
            Parsed::Overrun => Parsed::Overrun,
        }
    } else {
        Parsed::Failed("Unknown GGUF value type: "@ + decimal(ty as nat))
    }
}

/// A metadata pair at `off`: the key text, a `u32` type code, the value.
pub open spec fn spec_parse_kv(d: Seq<u8>, off: int) -> Parsed<(Seq<char>, ValueModel)> {
    match spec_parse_text(d, off, "Invalid UTF-8 in key"@) {
        Parsed::Done(key, o) => if !fits(d, o, 4) {
            Parsed::Overrun
        } else {
            match spec_parse_value(d, o + 4, rd_u32(d, o)) {
                Parsed::Done(v, o2) => Parsed::Done((key, v), o2),
                Parsed::Failed(m) => Parsed::Failed(m),
                Parsed::Overrun => Parsed::Overrun,
            }
        },
        Parsed::Failed(m) => Parsed::Failed(m),
        Parsed::Overrun => Parsed::Overrun,
    }
}

/// `n` little-endian `u64`s at `off`, or `None` past the end.
pub open spec fn spec_read_u64s(d: Seq<u8>, off: int, n: nat) -> Option<Seq<u64>>
    decreases n,
{
    if n == 0 {
        Some(Seq::empty())
    } else if !fits(d, off, 8) {
        None
    } else {
        match spec_read_u64s(d, off + 8, (n - 1) as nat) {
            Some(rest) => Some(seq![rd_u64(d, off)] + rest),
            None => None,
        }
    }
}

/// A tensor description at `off`: the name text, a `u32` dimension count,
/// that many `u64` dimensions, a `u32` encoding code (refused when unknown)
/// and a `u64` data offset.
pub open spec fn spec_parse_tensor_info(d: Seq<u8>, off: int) -> Parsed<InfoModel> {
    match spec_parse_text(d, off, "Invalid UTF-8 in tensor name"@) {
        Parsed::Done(name, o) => if !fits(d, o, 4) {
            Parsed::Overrun
        } else {
            let nd = rd_u32(d, o) as nat;
            match spec_read_u64s(d, o + 4, nd) {
                None => Parsed::Overrun,
                Some(dims) => {
                    let o2 = o + 4 + 8 * nd;
                    if !fits(d, o2, 4) {
                        Parsed::Overrun
                    } else {
                        match spec_ggml_from_u32(rd_u32(d, o2)) {
                            None => Parsed::Failed(unknown_ggml_message(rd_u32(d, o2))),
                            Some(dt) => if !fits(d, o2 + 4, 8) {
                                Parsed::Overrun
                            } else {
                                Parsed::Done(
                                    InfoModel { name, dims, dtype: dt, offset: rd_u64(d, o2 + 4) },
                                    o2 + 12,
                                )
                            },
                        }
                    }
                },
            }
        },
        Parsed::Failed(m) => Parsed::Failed(m),
        Parsed::Overrun => Parsed::Overrun,
    }
}

/// A parsed tensor description ends with its `u32` type code and its
/// `u64` data offset: the encoding is the one that code names (so it is
/// `F16` exactly when the code is 1, and `F32` exactly when it is 0), and the
/// offset is the last eight bytes.
pub proof fn lemma_tensor_info_encoding(d: Seq<u8>, off: int)
    ensures
        spec_parse_tensor_info(d, off) matches Parsed::Done(t, o) ==> {
            &&& Some(t.dtype) == spec_ggml_from_u32(rd_u32(d, o - 12))
            &&& (t.dtype == GgmlDType::F16) == (rd_u32(d, o - 12) == 1)
            &&& (t.dtype == GgmlDType::F32) == (rd_u32(d, o - 12) == 0)
            &&& t.offset == rd_u64(d, o - 8)
        },
{
    if let Parsed::Done(t, o) = spec_parse_tensor_info(d, off) {
        lemma_ggml_code_table(rd_u32(d, o - 12));
    }
}

/// Whether some pair of `ps` has key `k`.
pub open spec fn has_key(ps: Seq<(Seq<char>, ValueModel)>, k: Seq<char>) -> bool {
    exists|i: int| 0 <= i < ps.len() && (#[trigger] ps[i]).0 == k
}

/// Inserting a pair as a map does: a key already present takes the new
/// value in its place; a new key is appended.
pub open spec fn insert_pair(ps: Seq<(Seq<char>, ValueModel)>, kv: (Seq<char>, ValueModel)) -> Seq<(Seq<char>, ValueModel)> {
    if has_key(ps, kv.0) {
        ps.update(choose|i: int| 0 <= i < ps.len() && (#[trigger] ps[i]).0 == kv.0, kv)
    } else {
        ps.push(kv)
    }
}

/// No key occurs twice among the pairs.
pub open spec fn keys_distinct(ps: Seq<(Seq<char>, ValueModel)>) -> bool {
    forall|i: int, j: int| 0 <= i < j < ps.len() ==> (#[trigger] ps[i]).0 != (#[trigger] ps[j]).0
}

/// Inserting keeps the keys distinct.
proof fn lemma_insert_pair_distinct(ps: Seq<(Seq<char>, ValueModel)>, kv: (Seq<char>, ValueModel))
    requires
        keys_distinct(ps),
    ensures
        keys_distinct(insert_pair(ps, kv)),
{
    let r = insert_pair(ps, kv);
    if has_key(ps, kv.0) {
        let c = choose|i: int| 0 <= i < ps.len() && (#[trigger] ps[i]).0 == kv.0;
        assert forall|i: int, j: int| 0 <= i < j < r.len() implies (#[trigger] r[i]).0 != (#[trigger] r[j]).0 by {
            assert(ps[i].0 != ps[j].0);
            if i == c {
                assert(ps[c].0 == kv.0);
            }
            if j == c {
                assert(ps[c].0 == kv.0);
            }
        }
    } else {
        assert forall|i: int, j: int| 0 <= i < j < r.len() implies (#[trigger] r[i]).0 != (#[trigger] r[j]).0 by {
            if j == ps.len() {
                assert(r[i] == ps[i]);
                assert(ps[i].0 != kv.0);
            } else {
                assert(ps[i].0 != ps[j].0);
            }
        }
    }
}

/// `n` more metadata pairs from `off`, inserted into `acc` as a map does.
pub open spec fn spec_parse_kvs(d: Seq<u8>, off: int, n: nat, acc: Seq<(Seq<char>, ValueModel)>)
    -> Parsed<Seq<(Seq<char>, ValueModel)>>
    decreases n,
{
    if n == 0 {
        Parsed::Done(acc, off)
    } else {
        match spec_parse_kv(d, off) {
            Parsed::Done(kv, o) => spec_parse_kvs(d, o, (n - 1) as nat, insert_pair(acc, kv)),
            Parsed::Failed(m) => Parsed::Failed(m),
            Parsed::Overrun => Parsed::Overrun,
        }
    }
}

/// `n` more tensor descriptions from `off`, appended to `acc`.
pub open spec fn spec_parse_infos(d: Seq<u8>, off: int, n: nat, acc: Seq<InfoModel>) -> Parsed<Seq<InfoModel>>
    decreases n,
{
    if n == 0 {
        Parsed::Done(acc, off)
    } else {
        match spec_parse_tensor_info(d, off) {
            Parsed::Done(t, o) => spec_parse_infos(d, o, (n - 1) as nat, acc.push(t)),
            Parsed::Failed(m) => Parsed::Failed(m),
            Parsed::Overrun => Parsed::Overrun,
        }
    }
}

/// The magic number that opens a GGUF file (`GGUF`, little-endian).
pub open spec fn gguf_magic() -> u32 {
    0x46554747
}

/// A whole file: the magic number, a `u32` version, the `u64` tensor and
/// pair counts, then the pairs and the tensor descriptions.
pub open spec fn spec_parse_gguf(d: Seq<u8>) -> Parsed<MetadataModel> {
    if d.len() < 4 {
        Parsed::Failed("GGUF file too small"@)
    } else if rd_u32(d, 0) != gguf_magic() {
        Parsed::Failed("Invalid GGUF magic number: 0x"@ + hex_fixed(rd_u32(d, 0) as nat, 8))
    } else if d.len() < 24 {
        Parsed::Overrun
    } else {
        let version = rd_u32(d, 4);
        let num_tensors = rd_u64(d, 8);
        let num_kv = rd_u64(d, 16);
        match spec_parse_kvs(d, 24, num_kv as nat, Seq::empty()) {
            Parsed::Done(kvs, o) => match spec_parse_infos(d, o, num_tensors as nat, Seq::empty()) {
                Parsed::Done(infos, o2) => Parsed::Done(
                    MetadataModel { version, num_tensors, num_kv, metadata: kvs, tensors: infos },
                    o2,
                ),
                Parsed::Failed(m) => Parsed::Failed(m),
                Parsed::Overrun => Parsed::Overrun,
            },
            Parsed::Failed(m) => Parsed::Failed(m),
            Parsed::Overrun => Parsed::Overrun,
        }
    }
}

/// An exec outcome agrees with a spec outcome: `None` for an overrun, the
/// refusal message, or the item (by `model`) and the offset after it.
pub open spec fn agrees<T, M>(r: Option<OxideResult<(T, usize)>>, p: Parsed<M>, model: spec_fn(T) -> M) -> bool {
    match p {
        Parsed::Overrun => r is None,
        Parsed::Failed(m) => r matches Some(Err(OxideError::InvalidArgument(x))) && x@ == m,
        Parsed::Done(v, o) => r matches Some(Ok((t, k))) && model(t) == v && k == o,
    }
}

/// The dimensions of a tensor description as `usize`s.
pub open spec fn dims_as_usize(dims: Seq<u64>) -> Seq<usize> {
    dims.map_values(|x: u64| x as usize)
}

/// `n` little-endian `u32`s from `off`, four bytes apart.
pub open spec fn le_u32_run(d: Seq<u8>, off: int, n: nat) -> Seq<u32> {
    Seq::new(n, |i: int| rd_u32(d, off + 4 * i))
}

/// `n` little-endian `u16`s from `off`, two bytes apart.
pub open spec fn le_u16_run(d: Seq<u8>, off: int, n: nat) -> Seq<u16> {
    Seq::new(n, |i: int| rd_u16(d, off + 2 * i))
}

/// The message for a tensor encoding that is not decoded.
pub open spec fn not_implemented_message(d: GgmlDType) -> Seq<char> {
    "GGUF dtype "@ + ggml_debug_name(d) + " not yet implemented"@
}

/// The element bit patterns of a tensor's data.
pub enum ElementsModel {
    F32(Seq<u32>),
    F16(Seq<u16>),
}

/// Reading the data of a tensor description: `None` where a plain
/// reader panics (more than eight dimensions, an element count or stride
/// outside `usize`, data past the end of the bytes); the refusal of an
/// encoding other than `F32` and `F16`; or the elements' bit patterns, read
/// little-endian from the description's offset.
pub open spec fn spec_decode_elements(d: Seq<u8>, info: InfoModel) -> Option<Result<ElementsModel, Seq<char>>> {
    let dims = dims_as_usize(info.dims);
    let off = (info.offset as usize) as int;
    if dims.len() > 8 {
        None
    } else if info.dtype != GgmlDType::F32 && info.dtype != GgmlDType::F16 {
        Some(Err(not_implemented_message(info.dtype)))
    } else if !(prefix_fits(dims) && suffix_fits(dims)) {
        None
    } else {
        let n = prod(dims);
        let width: int = if info.dtype == GgmlDType::F32 { 4 } else { 2 };
        if n > 0 && off + width * n > d.len() {
            None
        } else if info.dtype == GgmlDType::F32 {
            Some(Ok(ElementsModel::F32(le_u32_run(d, off, n))))
        } else {
            Some(Ok(ElementsModel::F16(le_u16_run(d, off, n))))
        }
    }
}

/// The raw elements of a tensor: single-precision or half-precision bit
/// patterns.
#[derive(Debug, Clone)]
pub enum ElementBits {
    F32(Vec<u32>),
    F16(Vec<u16>),
}

impl ElementBits {
    pub open spec fn model(&self) -> ElementsModel {
        match *self {
            ElementBits::F32(w) => ElementsModel::F32(w@),
            ElementBits::F16(h) => ElementsModel::F16(h@),
        }
    }
}

/// `String::from_utf8(bytes)`: std decodes the bytes when they are
/// well-formed UTF-8 and refuses them otherwise.
#[verifier::external_body]
fn utf8_string(bytes: Vec<u8>) -> (r: Option<String>)
    ensures
        r is Some <==> valid_utf8(bytes@),
        r matches Some(s) ==> s@ == decode_utf8(bytes@),
{
    String::from_utf8(bytes).ok()
}

/// Reads a little-endian `u16` at `off`.
pub(crate) fn read_u16(data: &[u8], off: usize) -> (r: u16)
    requires
        fits(data@, off as int, 2),
    ensures
        r == rd_u16(data@, off as int),
{
    let _len = data.len();
    u16_from_le_bytes(slice_subrange(data, off, off + 2))
}

/// Reads a little-endian `u32` at `off`.
pub(crate) fn read_u32(data: &[u8], off: usize) -> (r: u32)
    requires
        fits(data@, off as int, 4),
    ensures
        r == rd_u32(data@, off as int),
{
    let _len = data.len();
    u32_from_le_bytes(slice_subrange(data, off, off + 4))
}

/// Reads a little-endian `u64` at `off`.
fn read_u64(data: &[u8], off: usize) -> (r: u64)
    requires
        fits(data@, off as int, 8),
    ensures
        r == rd_u64(data@, off as int),
{
    let _len = data.len();
    u64_from_le_bytes(slice_subrange(data, off, off + 8))
}

/// Reads a length-prefixed UTF-8 text at `off`.
fn parse_text(data: &[u8], offset: usize, bad: &str) -> (r: Option<OxideResult<(String, usize)>>)
    ensures
        agrees(r, spec_parse_text(data@, offset as int, bad@), |s: String| s@),
{
    if offset > data.len() || data.len() - offset < 8 {
        return None;
    }
    let n = read_u64(data, offset);
    let s = offset + 8;
    if n > (data.len() - s) as u64 {
        return None;
    }
    let n = n as usize;
    let bytes = vstd::slice::slice_to_vec(slice_subrange(data, s, s + n));
    match utf8_string(bytes) {
        Some(text) => Some(Ok((text, s + n))),
        None => Some(Err(OxideError::InvalidArgument(String::from_str(bad)))),
    }
}

/// The loader's parsing entry points.
pub struct GgufLoader;

impl GgufLoader {
    /// Parses a GGUF file held in memory. `None` where the bytes end before
    /// an item does (a plain reader would panic there); otherwise the parse
    /// result or the refusal.
    pub fn parse_metadata(data: &[u8]) -> (r: Option<OxideResult<GgufMetadata>>)
        ensures
            match spec_parse_gguf(data@) {
                Parsed::Overrun => r is None,
                Parsed::Failed(m) => r matches Some(Err(OxideError::InvalidArgument(x))) && x@ == m,
                Parsed::Done(v, _) => r matches Some(Ok(meta)) && meta.model() == v,
            },
            r matches Some(Ok(meta)) ==> keys_distinct(meta.model().metadata),
    {
        proof {
            reveal_strlit("GGUF file too small");
            reveal_strlit("Invalid GGUF magic number: 0x");
        }
        if data.len() < 4 {
            return Some(Err(OxideError::InvalidArgument(String::from_str("GGUF file too small"))));
        }
        let magic = read_u32(data, 0);
        if magic != 0x46554747 {
            let mut m = String::from_str("Invalid GGUF magic number: 0x");
            m.append(u32_to_hex8(magic).as_str());
            return Some(Err(OxideError::InvalidArgument(m)));
        }
        if data.len() < 24 {
            return None;
        }
        let version = read_u32(data, 4);
        let num_tensors = read_u64(data, 8);
        let num_kv = read_u64(data, 16);
        let ghost d = data@;
        let mut offset: usize = 24;
        let mut metadata: Vec<(String, GgufValue)> = Vec::new();
        let mut i: u64 = 0;
        let ghost kv_model = |p: (String, GgufValue)| (p.0@, p.1.model());
        assert(metadata@.map_values(kv_model) =~= Seq::<(Seq<char>, ValueModel)>::empty());
        while i < num_kv
            invariant
                d == data@,
                d.len() >= 24,
                rd_u32(d, 0) == gguf_magic(),
                version == rd_u32(d, 4),
                num_tensors == rd_u64(d, 8),
                num_kv == rd_u64(d, 16),
                i <= num_kv,
                offset <= data@.len(),
                kv_model == (|p: (String, GgufValue)| (p.0@, p.1.model())),
                spec_parse_kvs(d, 24, num_kv as nat, Seq::empty())
                    == spec_parse_kvs(d, offset as int, (num_kv - i) as nat, metadata@.map_values(kv_model)),
                keys_distinct(metadata@.map_values(kv_model)),
            decreases num_kv - i,
        {
            match Self::parse_kv(data, offset) {
                None => {
                    return None;
                },
                Some(Err(e)) => {
                    return Some(Err(e));
                },
                Some(Ok((key, value, new_offset))) => {
                    let ghost before = metadata@.map_values(kv_model);
                    let ghost kv = (key@, value.model());
                    let mut found: Option<usize> = None;
                    let mut k: usize = 0;
                    while k < metadata.len()
                        invariant
                            k <= metadata@.len(),
                            before == metadata@.map_values(kv_model),
                            kv_model == (|p: (String, GgufValue)| (p.0@, p.1.model())),
                            kv == (key@, value.model()),
                            found is None ==> forall|q: int| 0 <= q < k ==> (#[trigger] before[q]).0 != kv.0,
                            found matches Some(q) ==> q < before.len() && before[q as int].0 == kv.0,
                        decreases metadata@.len() - k,
                    {
                        if found.is_none() && str_eq(metadata[k].0.as_str(), key.as_str()) {
                            found = Some(k);
                        }
                        k = k + 1;
                    }
                    match found {
                        Some(q) => {
                            proof {
                                let c = choose|i: int| 0 <= i < before.len() && (#[trigger] before[i]).0 == kv.0;
                                assert(before[q as int].0 == kv.0);
                                if c != q {
                                    if c < q {
                                        assert(before[c].0 != before[q as int].0);
                                    } else {
                                        assert(before[q as int].0 != before[c].0);
                                    }
                                }
                            }
                            metadata.set(q, (key, value));
                            proof {
                                assert(metadata@.map_values(kv_model) =~= insert_pair(before, kv));
                            }
                        },
                        None => {
                            metadata.push((key, value));
                            proof {
                                assert(!has_key(before, kv.0));
                                assert(metadata@.map_values(kv_model) =~= insert_pair(before, kv));
                            }
                        },
                    }
                    proof {
                        lemma_insert_pair_distinct(before, kv);
                    }
                    offset = new_offset;
                },
            }
            i = i + 1;
        }
        let mut tensors: Vec<GgufTensorInfo> = Vec::new();
        let mut j: u64 = 0;
        let ghost kv_offset = offset as int;
        let ghost info_model = |t: GgufTensorInfo| t.model();
        assert(tensors@.map_values(info_model) =~= Seq::<InfoModel>::empty());
        assert(spec_parse_kvs(d, 24, num_kv as nat, Seq::empty())
            == Parsed::<Seq<(Seq<char>, ValueModel)>>::Done(metadata@.map_values(kv_model), kv_offset));
        while j < num_tensors
            invariant
                d == data@,
                d.len() >= 24,
                rd_u32(d, 0) == gguf_magic(),
                version == rd_u32(d, 4),
                num_tensors == rd_u64(d, 8),
                num_kv == rd_u64(d, 16),
                spec_parse_kvs(d, 24, num_kv as nat, Seq::empty())
                    == Parsed::<Seq<(Seq<char>, ValueModel)>>::Done(metadata@.map_values(kv_model), kv_offset),
                kv_model == (|p: (String, GgufValue)| (p.0@, p.1.model())),
                keys_distinct(metadata@.map_values(kv_model)),
                j <= num_tensors,
                offset <= data@.len(),
                info_model == (|t: GgufTensorInfo| t.model()),
                spec_parse_infos(d, kv_offset, num_tensors as nat, Seq::empty())
                    == spec_parse_infos(d, offset as int, (num_tensors - j) as nat, tensors@.map_values(info_model)),
            decreases num_tensors - j,
        {
            match Self::parse_tensor_info(data, offset) {
                None => {
                    return None;
                },
                Some(Err(e)) => {
                    return Some(Err(e));
                },
                Some(Ok((info, new_offset))) => {
                    let ghost before = tensors@.map_values(info_model);
                    tensors.push(info);
                    proof {
                        assert(tensors@.map_values(info_model) =~= before.push(info.model()));
                    }
                    offset = new_offset;
                },
            }
            j = j + 1;
        }
        let meta = GgufMetadata { version, num_tensors, num_kv, metadata, tensors };
        proof {
            assert(meta.model().metadata == meta.metadata@.map_values(kv_model));
            assert(meta.model().tensors == meta.tensors@.map_values(info_model));
        }
        Some(Ok(meta))
    }

    /// Reads the elements of the tensor `info` describes from the bytes of
    /// the whole file, with the tensor's shape. The shape's element count and
    /// strides fit in a `usize`, and so does the byte count of the elements
    /// widened to single precision.
    pub fn decode_elements(data: &[u8], info: &GgufTensorInfo) -> (r: Option<OxideResult<(Shape, ElementBits)>>)
        ensures
            match spec_decode_elements(data@, info.model()) {
                None => r is None,
                Some(Err(m)) => r matches Some(Err(OxideError::InvalidArgument(x))) && x@ == m,
                Some(Ok(e)) => r matches Some(Ok((shape, elems))) && shape@ == dims_as_usize(info.dims@)
                    && elems.model() == e && prefix_fits(shape@) && suffix_fits(shape@),
            },
    {
        let len = data.len();
        if info.dims.len() > 8 {
            return None;
        }
        let mut dims: Vec<usize> = Vec::new();
        let mut i: usize = 0;
        while i < info.dims.len()
            invariant
                i <= info.dims@.len(),
                dims@ == dims_as_usize(info.dims@.take(i as int)),
            decreases info.dims@.len() - i,
        {
            dims.push(info.dims[i] as usize);
            i = i + 1;
            assert(dims@ =~= dims_as_usize(info.dims@.take(i as int)));
        }
        assert(info.dims@.take(info.dims@.len() as int) =~= info.dims@);
        let shape = Shape::new(dims.as_slice());
        let is_f32 = match info.dtype {
            GgmlDType::F32 => true,
            GgmlDType::F16 => false,
            other => {
                let mut m = String::from_str("GGUF dtype ");
                m.append(other.debug_name());
                m.append(" not yet implemented");
                proof {
                    reveal_strlit("GGUF dtype ");
                    reveal_strlit(" not yet implemented");
                }
                return Some(Err(OxideError::InvalidArgument(m)));
            },
        };
        if !shape.counts_fit() {
            return None;
        }
        let n = shape.elem_count();
        let off = info.offset as usize;
        let width: usize = if is_f32 { 4 } else { 2 };
        let ghost d = data@;
        if n > 0 {
            let bytes = match n.checked_mul(width) {
                Some(b) => b,
                None => {
                    assert(width * n > len) by (nonlinear_arith)
                        requires
                            n * width > usize::MAX,
                            len <= usize::MAX;
                    return None;
                },
            };
            match off.checked_add(bytes) {
                Some(end) => {
                    if end > data.len() {
                        return None;
                    }
                },
                None => {
                    return None;
                },
            }
        }
        let mut k: usize = 0;
        if is_f32 {
            let mut words: Vec<u32> = Vec::new();
            while k < n
                invariant
                    d == data@,
                    len == d.len(),
                    k <= n,
                    n > 0 ==> off + 4 * n <= d.len(),
                    words@ == le_u32_run(d, off as int, n as nat).take(k as int),
                decreases n - k,
            {
                let w = read_u32(data, off + 4 * k);
                words.push(w);
                k = k + 1;
                assert(words@ =~= le_u32_run(d, off as int, n as nat).take(k as int));
            }
            assert(words@ =~= le_u32_run(d, off as int, n as nat));
            Some(Ok((shape, ElementBits::F32(words))))
        } else {
            let mut halves: Vec<u16> = Vec::new();
            while k < n
                invariant
                    d == data@,
                    len == d.len(),
                    k <= n,
                    n > 0 ==> off + 2 * n <= d.len(),
                    halves@ == le_u16_run(d, off as int, n as nat).take(k as int),
                decreases n - k,
            {
                let h = read_u16(data, off + 2 * k);
                halves.push(h);
                k = k + 1;
                assert(halves@ =~= le_u16_run(d, off as int, n as nat).take(k as int));
            }
            assert(halves@ =~= le_u16_run(d, off as int, n as nat));
            Some(Ok((shape, ElementBits::F16(halves))))
        }
    }

    /// Reads one metadata pair at `offset`.
    fn parse_kv(data: &[u8], offset: usize) -> (r: Option<OxideResult<(String, GgufValue, usize)>>)
        ensures
            match spec_parse_kv(data@, offset as int) {
                Parsed::Overrun => r is None,
                Parsed::Failed(m) => r matches Some(Err(OxideError::InvalidArgument(x))) && x@ == m,
                Parsed::Done(v, o) => r matches Some(Ok((k, val, off))) && k@ == v.0 && val.model() == v.1
                    && off == o && off <= data@.len(),
            },
    {
        proof {
            reveal_strlit("Invalid UTF-8 in key");
        }
        let (key, o) = match parse_text(data, offset, "Invalid UTF-8 in key") {
            None => {
                return None;
            },
            Some(Err(e)) => {
                return Some(Err(e));
            },
            Some(Ok(x)) => x,
        };
        if data.len() - o < 4 {
            return None;
        }
        let dtype = read_u32(data, o);
        match Self::parse_value(data, o + 4, dtype) {
            None => None,
            Some(Err(e)) => Some(Err(e)),
            Some(Ok((value, new_offset))) => Some(Ok((key, value, new_offset))),
        }
    }

    /// Reads one tensor description at `offset`.
    fn parse_tensor_info(data: &[u8], offset: usize) -> (r: Option<OxideResult<(GgufTensorInfo, usize)>>)
        ensures
            match spec_parse_tensor_info(data@, offset as int) {
                Parsed::Overrun => r is None,
                Parsed::Failed(m) => r matches Some(Err(OxideError::InvalidArgument(x))) && x@ == m,
                Parsed::Done(v, o) => r matches Some(Ok((info, off))) && info.model() == v
                    && off == o && off <= data@.len(),
            },
    {
        proof {
            reveal_strlit("Invalid UTF-8 in tensor name");
        }
        let ghost d = data@;
        let (name, o) = match parse_text(data, offset, "Invalid UTF-8 in tensor name") {
            None => {
                return None;
            },
            Some(Err(e)) => {
                return Some(Err(e));
            },
            Some(Ok(x)) => x,
        };
        if data.len() - o < 4 {
            return None;
        }
        let num_dims = read_u32(data, o);
        let mut dims: Vec<u64> = Vec::new();
        let mut off = o + 4;
        let mut k: u32 = 0;
        assert(dims@ =~= Seq::<u64>::empty());
        while k < num_dims
            invariant
                d == data@,
                spec_parse_text(d, offset as int, "Invalid UTF-8 in tensor name"@)
                    == Parsed::Done(name@, o as int),
                fits(d, o as int, 4),
                num_dims == rd_u32(d, o as int),
                k <= num_dims,
                off <= data@.len(),
                off == o + 4 + 8 * k,
                spec_read_u64s(d, o + 4, num_dims as nat) matches Some(all)
                    ==> spec_read_u64s(d, off as int, (num_dims - k) as nat) matches Some(rest) && all == dims@ + rest,
                spec_read_u64s(d, o + 4, num_dims as nat) is None
                    ==> spec_read_u64s(d, off as int, (num_dims - k) as nat) is None,
            decreases num_dims - k,
        {
            if data.len() - off < 8 {
                return None;
            }
            let v = read_u64(data, off);
            proof {
                if let Some(rest) = spec_read_u64s(d, off + 8, (num_dims - k - 1) as nat) {
                    assert(dims@.push(v) + rest =~= dims@ + (seq![v] + rest));
                }
            }
            dims.push(v);
            off = off + 8;
            k = k + 1;
        }
        proof {
            assert(dims@ + Seq::<u64>::empty() =~= dims@);
        }
        if data.len() - off < 4 {
            return None;
        }
        let dtype_val = read_u32(data, off);
        let dtype = match GgmlDType::from_u32(dtype_val) {
            Ok(t) => t,
            Err(e) => {
                return Some(Err(e));
            },
        };
        off = off + 4;
        if data.len() - off < 8 {
            return None;
        }
        let tensor_offset = read_u64(data, off);
        off = off + 8;
        let info = GgufTensorInfo { name, dims, dtype, offset: tensor_offset };
        Some(Ok((info, off)))
    }

    /// Reads one metadata value of type code `dtype` at `offset`.
    fn parse_value(data: &[u8], offset: usize, dtype: u32) -> (r: Option<OxideResult<(GgufValue, usize)>>)
        requires
            offset <= data@.len(),
        ensures
            match spec_parse_value(data@, offset as int, dtype) {
                Parsed::Overrun => r is None,
                Parsed::Failed(m) => r matches Some(Err(OxideError::InvalidArgument(x))) && x@ == m,
                Parsed::Done(v, o) => r matches Some(Ok((val, off))) && val.model() == v
                    && off == o && off <= data@.len(),
            },
    {
        proof {
            reveal_strlit("Invalid UTF-8 in string value");
            reveal_strlit("Unknown GGUF value type: ");
        }
        let avail = data.len() - offset;
        if dtype == 0 || dtype == 1 || dtype == 10 {
            if avail < 1 {
                return None;
            }
            let b = data[offset];
            let v = if dtype == 0 {
                GgufValue::Uint8(b)
            } else if dtype == 1 {
                GgufValue::Int8(b as i8)
            } else {
                GgufValue::Bool(b != 0)
            };
            Some(Ok((v, offset + 1)))
        } else if dtype == 2 || dtype == 3 {
            if avail < 2 {
                return None;
            }
            let x = read_u16(data, offset);
            let v = if dtype == 2 { GgufValue::Uint16(x) } else { GgufValue::Int16(x as i16) };
            Some(Ok((v, offset + 2)))
        } else if dtype == 4 || dtype == 5 || dtype == 6 {
            if avail < 4 {
                return None;
            }
            let x = read_u32(data, offset);
            let v = if dtype == 4 {
                GgufValue::Uint32(x)
            } else if dtype == 5 {
                GgufValue::Int32(x as i32)
            } else {
                GgufValue::Float32(x)
            };
            Some(Ok((v, offset + 4)))
        } else if dtype == 7 || dtype == 8 || dtype == 9 {
            if avail < 8 {
                return None;
            }
            let x = read_u64(data, offset);
            let v = if dtype == 7 {
                GgufValue::Uint64(x)
            } else if dtype == 8 {
                GgufValue::Int64(x as i64)
            } else {
                GgufValue::Float64(x)
            };
            Some(Ok((v, offset + 8)))
        } else if dtype == 11 {
            match parse_text(data, offset, "Invalid UTF-8 in string value") {
                None => None,
                Some(Err(e)) => Some(Err(e)),
                Some(Ok((s, o))) => Some(Ok((GgufValue::String(s), o))),
            }
        } else {
            let mut m = String::from_str("Unknown GGUF value type: ");
            m.append(usize_to_string(dtype as usize).as_str());
            Some(Err(OxideError::InvalidArgument(m)))
        }
    }
}

} // verus!

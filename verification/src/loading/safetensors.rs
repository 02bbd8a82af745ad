//! The safetensors model file format: tensor entries and their data.
use vstd::prelude::*;
use vstd::bytes::{spec_u64_from_le_bytes, u64_from_le_bytes};
use vstd::multiset::Multiset;
use vstd::slice::{slice_subrange, slice_to_vec};
use vstd::string::*;
use crate::base::device::Device;
use crate::base::dtype::{DType, Shape, prefix_fits, prod, spec_dtype_debug, suffix_fits};
use crate::base::storage::StorageData;
use crate::base::tensor::Tensor;
use crate::ops::embedding::host_bytes;
use crate::error::{OxideError, OxideResult};
use crate::loading::gguf::{ElementBits, ElementsModel, le_u16_run, le_u32_run, read_u16, read_u32};
use crate::text::{decimal, usize_to_string};
use crate::text::str_eq;

verus! {

/// One tensor of a safetensors header: its name, its dtype as the format
/// names it (`F32`, `BF16`, `F8_E4M3`, ...), its shape and the span of its
/// bytes after the header.
#[derive(Debug, Clone)]
pub struct SafetensorEntry {
    pub name: String,
    pub dtype_name: String,
    pub shape: Vec<usize>,
    pub begin: usize,
    pub end: usize,
}

/// The header length a safetensors file declares: its first eight bytes as
/// a little-endian `u64`.
pub open spec fn st_declared_len(d: Seq<u8>) -> nat {
    spec_u64_from_le_bytes(d.subrange(0, 8)) as nat
}

/// Whether every byte of `s` is an ASCII digit.
pub open spec fn all_digits(s: Seq<u8>) -> bool {
    forall|k: int| 0 <= k < s.len() ==> 48 <= #[trigger] s[k] <= 57
}

/// The number a run of ASCII digits writes in decimal.
pub open spec fn digits_value(s: Seq<u8>) -> nat
    decreases s.len(),
{
    if s.len() == 0 {
        0
    } else {
        digits_value(s.drop_last()) * 10 + ((s.last() - 48) as nat)
    }
}

/// The largest header size the `safetensors` crate reads.
pub open spec fn st_max_header() -> nat {
    100_000_000
}

/// Every number written in the header of `d` is small enough that adding
/// it to the header length and the eight length bytes stays in a `usize`.
/// Only a header the crate goes on to parse (at least eight bytes, a
/// declared length of at most 100,000,000 that fits in the file) is
/// concerned.
pub open spec fn header_numbers_fit(d: Seq<u8>) -> bool {
    let n = st_declared_len(d);
    (d.len() >= 8 && n <= st_max_header() && n + 8 <= d.len()) ==> forall|i: int, j: int|
        8 <= i <= j <= n + 8 && #[trigger] all_digits(d.subrange(i, j)) ==> digits_value(d.subrange(i, j)) + 8 + n
            <= usize::MAX
}

/// The view of an entry as plain values: name, dtype name, shape and span.
pub open spec fn entry_tuple(e: EntryModel) -> (Seq<char>, Seq<char>, Seq<usize>, usize, usize) {
    (e.name, e.dtype_name, e.shape, e.begin, e.end)
}

/// The entries of a list as a multiset of plain values.
pub open spec fn entry_multiset(es: Seq<EntryModel>) -> Multiset<(Seq<char>, Seq<char>, Seq<usize>, usize, usize)> {
    es.map_values(|e: EntryModel| entry_tuple(e)).to_multiset()
}

/// What `SafeTensors::read_metadata` finds in a whole file `d`: whether it
/// accepts the header and, when it does, the header length and the
/// multiset of its tensors (name, dtype name, shape, data span). All of
/// this depends on the bytes alone; only the order in which the crate's
/// hash map lists the tensors does not, and it is not part of this.
pub uninterp spec fn safetensors_header(d: Seq<u8>) -> Option<(nat, Multiset<(Seq<char>, Seq<char>, Seq<usize>, usize, usize)>)>;

/// `SafeTensors::read_metadata` and `Metadata::tensors`: parses the header
/// of a safetensors file (a little-endian `u64` length `n`, then `n` bytes
/// of JSON) and lists its tensors, in the order the crate's hash map yields
/// them, or gives the crate's error text. The header is accepted exactly
/// when `safetensors_header` says so, with its length and tensors; the
/// crate has then checked that the header fits and that each tensor's span
/// lies within the data after it. Which error text comes back is left
/// unsaid: where several tensors share a span it depends on the hash
/// map's order. The crate adds the end of the tensor data to the header
/// length without an overflow check, so headers writing a number too large
/// for that sum are left out by the precondition.
#[verifier::external_body]
fn read_header(data: &[u8]) -> (r: Result<(usize, Vec<SafetensorEntry>), String>)
    requires
        header_numbers_fit(data@),
    ensures
        r is Ok <==> safetensors_header(data@) is Some,
        r matches Ok((n, es)) ==> {
            &&& safetensors_header(data@) == Some(
                (n as nat, entry_multiset(es@.map_values(|e: SafetensorEntry| e.model()))),
            )
            &&& n == st_declared_len(data@)
            &&& n + 8 <= data@.len()
            &&& forall|i: int| 0 <= i < es@.len()
                ==> #[trigger] es@[i].begin <= es@[i].end && n + 8 + es@[i].end <= data@.len()
        },
{
    match safetensors::SafeTensors::read_metadata(data) {
        Ok((n, meta)) => Ok((n, meta.tensors().into_iter().map(|(name, info)| SafetensorEntry {
            name,
            dtype_name: format!("{:?}", info.dtype),
            shape: info.shape.clone(),
            begin: info.data_offsets.0,
            end: info.data_offsets.1,
        }).collect())),
        Err(e) => Err(e.to_string()),
    }
}

/// A suffix of a run of digits writes a number no larger than the run.
proof fn lemma_digits_suffix(s: Seq<u8>, k: int)
    requires
        0 <= k <= s.len(),
        all_digits(s),
    ensures
        digits_value(s.skip(k)) <= digits_value(s),
        all_digits(s.skip(k)),
    decreases s.len(),
{
    if k == s.len() {
        assert(s.skip(k) =~= Seq::<u8>::empty());
    } else {
        let t = s.skip(k);
        assert(t.drop_last() =~= s.drop_last().skip(k));
        assert(t.last() == s.last());
        assert(all_digits(s.drop_last()));
        lemma_digits_suffix(s.drop_last(), k);
        assert(all_digits(t));
    }
}

/// Decides `header_numbers_fit`: reads the declared header length and scans
/// the header's runs of digits, stopping at the first whose value is too
/// large.
fn header_numbers_fit_check(data: &[u8]) -> (r: bool)
    ensures
        r == header_numbers_fit(data@),
{
    if data.len() < 8 {
        return true;
    }
    let head = slice_subrange(data, 0, 8);
    let n64 = u64_from_le_bytes(head);
    proof {
        assert(data@.subrange(0, 8) =~= head@);
    }
    if n64 > 100_000_000 {
        return true;
    }
    let n = n64 as usize;
    if n > data.len() - 8 {
        return true;
    }
    let bound: u128 = (usize::MAX - 8 - n) as u128;
    let end = n + 8;
    let ghost d = data@;
    let mut p: usize = 8;
    let mut r: usize = 8;
    let mut cur: u128 = 0;
    while p < end
        invariant
            d == data@,
            n == st_declared_len(d),
            n <= st_max_header(),
            end == n + 8,
            end <= d.len(),
            bound == usize::MAX - 8 - n,
            8 <= r <= p <= end,
            r == 8 || !(48 <= d[r - 1] <= 57),
            all_digits(d.subrange(r as int, p as int)),
            cur == digits_value(d.subrange(r as int, p as int)),
            cur <= bound,
            forall|i: int, j: int| 8 <= i <= j <= p && #[trigger] all_digits(d.subrange(i, j))
                ==> digits_value(d.subrange(i, j)) <= bound,
        decreases end - p,
    {
        let b = data[p];
        if 48 <= b && b <= 57 {
            let v: u128 = cur * 10 + ((b - 48) as u128);
            let ghost run = d.subrange(r as int, p + 1);
            proof {
                assert(run.drop_last() =~= d.subrange(r as int, p as int));
                assert(all_digits(run));
            }
            if v > bound {
                proof {
                    assert(digits_value(run) > bound);
                }
                return false;
            }
            proof {
                assert forall|i: int, j: int| 8 <= i <= j <= p + 1 && #[trigger] all_digits(d.subrange(i, j))
                    implies digits_value(d.subrange(i, j)) <= bound by {
                    if j == p + 1 && i <= p {
                        if i < r {
                            assert(d.subrange(i, j)[r - 1 - i] == d[r - 1]);
                        } else {
                            lemma_digits_suffix(run, i - r);
                            assert(run.skip(i - r) =~= d.subrange(i, j));
                        }
                    }
                }
            }
            cur = v;
            p = p + 1;
        } else {
            proof {
                assert forall|i: int, j: int| 8 <= i <= j <= p + 1 && #[trigger] all_digits(d.subrange(i, j))
                    implies digits_value(d.subrange(i, j)) <= bound by {
                    if j == p + 1 && i <= p {
                        assert(d.subrange(i, j)[p - i] == d[p as int]);
                    }
                }
                assert(d.subrange(p + 1, p + 1) =~= Seq::<u8>::empty());
            }
            p = p + 1;
            r = p;
            cur = 0;
        }
    }
    true
}

/// An entry with its text as characters.
pub struct EntryModel {
    pub name: Seq<char>,
    pub dtype_name: Seq<char>,
    pub shape: Seq<usize>,
    pub begin: usize,
    pub end: usize,
}

impl SafetensorEntry {
    pub open spec fn model(&self) -> EntryModel {
        EntryModel {
            name: self.name@,
            dtype_name: self.dtype_name@,
            shape: self.shape@,
            begin: self.begin,
            end: self.end,
        }
    }
}

/// A refusal while loading: an unsupported dtype (`UnsupportedOperation`)
/// or one that is not decoded (`InvalidArgument`), with its message.
pub enum LoadRefusal {
    Unsupported(Seq<char>),
    Invalid(Seq<char>),
}

/// The library dtype a safetensors dtype name stands for, when there is one.
pub open spec fn spec_st_dtype(name: Seq<char>) -> Option<DType> {
    if name == "F32"@ {
        Some(DType::F32)
    } else if name == "F16"@ {
        Some(DType::F16)
    } else if name == "BF16"@ {
        Some(DType::BF16)
    } else if name == "I64"@ {
        Some(DType::I64)
    } else if name == "U8"@ {
        Some(DType::U8)
    } else if name == "U32"@ {
        Some(DType::U32)
    } else if name == "F64"@ {
        Some(DType::F64)
    } else if name == "F8_E4M3"@ {
        Some(DType::F8E4M3)
    } else {
        None
    }
}

/// The name the safetensors format gives a library dtype, as used when
/// saving.
pub open spec fn spec_st_dtype_name(d: DType) -> Seq<char> {
    match d {
        DType::F32 => "F32"@,
        DType::F16 => "F16"@,
        DType::BF16 => "BF16"@,
        DType::I64 => "I64"@,
        DType::U8 => "U8"@,
        DType::U32 => "U32"@,
        DType::F64 => "F64"@,
        DType::F8E4M3 => "F8_E4M3"@,
    }
}

/// Saving and loading agree on dtypes: the name a dtype is saved under is
/// read back as that dtype. Every other name is refused as unsupported
/// when loading (`spec_load_entry`).
pub proof fn lemma_st_dtype_round_trip(d: DType)
    ensures
        spec_st_dtype(spec_st_dtype_name(d)) == Some(d),
{
    reveal_strlit("F32");
    reveal_strlit("F16");
    reveal_strlit("BF16");
    reveal_strlit("I64");
    reveal_strlit("U8");
    reveal_strlit("U32");
    reveal_strlit("F64");
    reveal_strlit("F8_E4M3");
    match d {
        DType::F32 => {},
        DType::F16 => {
            assert("F16"@[1] != "F32"@[1]);
        },
        DType::BF16 => {
            assert("BF16"@[0] != "F32"@[0]);
            assert("BF16"@[0] != "F16"@[0]);
        },
        DType::I64 => {
            assert("I64"@[0] != "F32"@[0]);
            assert("I64"@[0] != "F16"@[0]);
            assert("I64"@[0] != "BF16"@[0]);
        },
        DType::U8 => {
            assert("U8"@[0] != "F32"@[0]);
            assert("U8"@[0] != "F16"@[0]);
            assert("U8"@[0] != "BF16"@[0]);
            assert("U8"@[0] != "I64"@[0]);
        },
        DType::U32 => {
            assert("U32"@[0] != "F32"@[0]);
            assert("U32"@[0] != "F16"@[0]);
            assert("U32"@[0] != "BF16"@[0]);
            assert("U32"@[0] != "I64"@[0]);
            assert("U32"@[1] != "U8"@[1]);
        },
        DType::F64 => {
            assert("F64"@[1] != "F32"@[1]);
            assert("F64"@[1] != "F16"@[1]);
            assert("F64"@[0] != "BF16"@[0]);
            assert("F64"@[0] != "I64"@[0]);
            assert("F64"@[0] != "U8"@[0]);
            assert("F64"@[0] != "U32"@[0]);
        },
        DType::F8E4M3 => {
            assert("F8_E4M3"@[1] != "F32"@[1]);
            assert("F8_E4M3"@[1] != "F16"@[1]);
            assert("F8_E4M3"@[0] != "BF16"@[0]);
            assert("F8_E4M3"@[0] != "I64"@[0]);
            assert("F8_E4M3"@[0] != "U8"@[0]);
            assert("F8_E4M3"@[0] != "U32"@[0]);
            assert("F8_E4M3"@[1] != "F64"@[1]);
        },
    }
}

/// The bytes a tensor is saved as: its host bytes (a device tensor's come
/// back as zeros), for an `F32` tensor holding four bytes per element.
pub open spec fn save_bytes_outcome(dims: Seq<usize>, dtype: DType, data: StorageData) -> Result<Seq<u8>, (bool, Seq<char>)> {
    let b = host_bytes(data);
    if dtype != DType::F32 {
        Err((true, "Save not implemented for dtype "@ + spec_dtype_debug(dtype)))
    } else if b.len() != prod(dims) * 4 {
        Err((false, "Size mismatch: expected "@ + decimal(prod(dims) * 4) + " bytes, got "@ + decimal(b.len())))
    } else {
        Ok(b)
    }
}

/// Loading one entry from the whole file `d` whose header is `n` bytes:
/// refused for an unsupported dtype; `None` where a plain reader would panic (more
/// than eight dimensions, strides outside `usize`); the element bit patterns
/// of the entry's bytes for `F32` (four bytes each, a shorter tail ignored)
/// and for `F16` and `BF16` (two bytes each, both read as half precision);
/// refused for the other dtypes.
pub open spec fn spec_load_entry(d: Seq<u8>, n: nat, e: EntryModel) -> Option<Result<(Seq<usize>, ElementsModel), LoadRefusal>> {
    match spec_st_dtype(e.dtype_name) {
        None => Some(Err(LoadRefusal::Unsupported("Unsupported dtype in safetensors: "@ + e.dtype_name))),
        Some(dt) => if e.shape.len() > 8 {
            None
        } else if dt == DType::F32 || dt == DType::F16 || dt == DType::BF16 {
            if !suffix_fits(e.shape) {
                None
            } else {
                let bytes = d.subrange(n + 8 + e.begin, n + 8 + e.end);
                if dt == DType::F32 {
                    Some(Ok((e.shape, ElementsModel::F32(le_u32_run(bytes, 0, bytes.len() / 4)))))
                } else {
                    Some(Ok((e.shape, ElementsModel::F16(le_u16_run(bytes, 0, bytes.len() / 2)))))
                }
            }
        } else {
            Some(Err(LoadRefusal::Invalid("Dtype "@ + spec_dtype_debug(dt) + " not yet implemented for loading"@)))
        },
    }
}

/// Loading entries in order: the first refusal or panic stops the load;
/// otherwise each entry's name, shape and elements.
pub open spec fn spec_load_entries(d: Seq<u8>, n: nat, es: Seq<EntryModel>)
    -> Option<Result<Seq<(Seq<char>, Seq<usize>, ElementsModel)>, LoadRefusal>>
    decreases es.len(),
{
    if es.len() == 0 {
        Some(Ok(Seq::empty()))
    } else {
        match spec_load_entries(d, n, es.drop_last()) {
            None => None,
            Some(Err(x)) => Some(Err(x)),
            Some(Ok(acc)) => match spec_load_entry(d, n, es.last()) {
                None => None,
                Some(Err(x)) => Some(Err(x)),
                Some(Ok((shape, el))) => Some(Ok(acc.push((es.last().name, shape, el)))),
            },
        }
    }
}

/// The loaded tensors as the model sees them.
pub open spec fn loaded_model(v: Seq<(String, Shape, ElementBits)>) -> Seq<(Seq<char>, Seq<usize>, ElementsModel)> {
    v.map_values(|x: (String, Shape, ElementBits)| (x.0@, x.1@, x.2.model()))
}

/// An exec outcome agrees with a spec outcome.
pub open spec fn load_agrees(
    r: Option<OxideResult<Vec<(String, Shape, ElementBits)>>>,
    s: Option<Result<Seq<(Seq<char>, Seq<usize>, ElementsModel)>, LoadRefusal>>,
) -> bool {
    match s {
        None => r is None,
        Some(Err(LoadRefusal::Unsupported(m))) => r matches Some(Err(OxideError::UnsupportedOperation(x))) && x@ == m,
        Some(Err(LoadRefusal::Invalid(m))) => r matches Some(Err(OxideError::InvalidArgument(x))) && x@ == m,
        Some(Ok(v)) => r matches Some(Ok(t)) && loaded_model(t@) == v,
    }
}

/// The `n` little-endian `u32`s that fill `bytes` (a shorter tail ignored).
fn le_words(bytes: &[u8]) -> (r: Vec<u32>)
    ensures
        r@ == le_u32_run(bytes@, 0, bytes@.len() / 4),
{
    let blen = bytes.len();
    let n = blen / 4;
    let mut r: Vec<u32> = Vec::new();
    let mut i: usize = 0;
    while i < n
        invariant
            blen == bytes@.len(),
            n == bytes@.len() / 4,
            i <= n,
            r@ == le_u32_run(bytes@, 0, n as nat).take(i as int),
        decreases n - i,
    {
        r.push(read_u32(bytes, 4 * i));
        i = i + 1;
        assert(r@ =~= le_u32_run(bytes@, 0, n as nat).take(i as int));
    }
    assert(r@ =~= le_u32_run(bytes@, 0, n as nat));
    r
}

/// The little-endian `u16`s that fill `bytes` (a shorter tail ignored).
fn le_halves(bytes: &[u8]) -> (r: Vec<u16>)
    ensures
        r@ == le_u16_run(bytes@, 0, bytes@.len() / 2),
{
    let blen = bytes.len();
    let n = blen / 2;
    let mut r: Vec<u16> = Vec::new();
    let mut i: usize = 0;
    while i < n
        invariant
            blen == bytes@.len(),
            n == bytes@.len() / 2,
            i <= n,
            r@ == le_u16_run(bytes@, 0, n as nat).take(i as int),
        decreases n - i,
    {
        r.push(read_u16(bytes, 2 * i));
        i = i + 1;
        assert(r@ =~= le_u16_run(bytes@, 0, n as nat).take(i as int));
    }
    assert(r@ =~= le_u16_run(bytes@, 0, n as nat));
    r
}

/// The library dtype of a safetensors dtype name.
fn st_dtype(name: &str) -> (r: Option<DType>)
    ensures
        r == spec_st_dtype(name@),
{
    if str_eq(name, "F32") {
        Some(DType::F32)
    } else if str_eq(name, "F16") {
        Some(DType::F16)
    } else if str_eq(name, "BF16") {
        Some(DType::BF16)
    } else if str_eq(name, "I64") {
        Some(DType::I64)
    } else if str_eq(name, "U8") {
        Some(DType::U8)
    } else if str_eq(name, "U32") {
        Some(DType::U32)
    } else if str_eq(name, "F64") {
        Some(DType::F64)
    } else if str_eq(name, "F8_E4M3") {
        Some(DType::F8E4M3)
    } else {
        None
    }
}

/// The loader's entry points.
pub struct SafetensorsLoader;

impl SafetensorsLoader {
    /// The bytes a tensor is saved as: refused (`UnsupportedOperation`) for
    /// a dtype other than `F32`; otherwise the tensor's bytes on the host (a
    /// device tensor is first moved there, which gives zeros), refused
    /// (`InvalidArgument`) when they are not four per element.
    pub fn tensor_to_bytes(tensor: &Tensor) -> (r: OxideResult<Vec<u8>>)
        requires
            prefix_fits(tensor.spec_dims()),
            prod(tensor.spec_dims()) * 4 <= usize::MAX,
        ensures
            match save_bytes_outcome(tensor.spec_dims(), tensor@.dtype, tensor@.data) {
                Ok(b) => r matches Ok(v) && v@ == b,
                Err((true, m)) => r matches Err(OxideError::UnsupportedOperation(x)) && x@ == m,
                Err((false, m)) => r matches Err(OxideError::InvalidArgument(x)) && x@ == m,
            },
    {
        proof {
            reveal_strlit("Save not implemented for dtype ");
            reveal_strlit("Size mismatch: expected ");
            reveal_strlit(" bytes, got ");
        }
        let bytes: Vec<u8> = match &tensor.storage().data {
            StorageData::Cpu(c) => slice_to_vec(c.data.as_slice()),
            StorageData::Cuda(c) => {
                let z = vec![0u8; c.len];
                assert(z@ =~= host_bytes(tensor@.data));
                z
            },
        };
        let dtype = tensor.dtype();
        if dtype != DType::F32 {
            let mut m = String::from_str("Save not implemented for dtype ");
            m.append(dtype.debug_name());
            return Err(OxideError::UnsupportedOperation(m));
        }
        let expected = tensor.elem_count() * 4;
        if bytes.len() != expected {
            let mut m = String::from_str("Size mismatch: expected ");
            m.append(usize_to_string(expected).as_str());
            m.append(" bytes, got ");
            m.append(usize_to_string(bytes.len()).as_str());
            return Err(OxideError::InvalidArgument(m));
        }
        Ok(bytes)
    }

    /// Loads the listed entries of a file held in memory whose header is `n`
    /// bytes, in order.
    pub fn load_entries(data: &[u8], n: usize, entries: &[SafetensorEntry]) -> (r: Option<OxideResult<Vec<(String, Shape, ElementBits)>>>)
        requires
            n + 8 <= data@.len(),
            forall|i: int| 0 <= i < entries@.len() ==> #[trigger] entries@[i].begin <= entries@[i].end
                && n + 8 + entries@[i].end <= data@.len(),
        ensures
            load_agrees(r, spec_load_entries(data@, n as nat, entries@.map_values(|e: SafetensorEntry| e.model()))),
    {
        proof {
            reveal_strlit("Unsupported dtype in safetensors: ");
            reveal_strlit("Dtype ");
            reveal_strlit(" not yet implemented for loading");
        }
        let ghost es = entries@.map_values(|e: SafetensorEntry| e.model());
        let dlen = data.len();
        let mut out: Vec<(String, Shape, ElementBits)> = Vec::new();
        let mut i: usize = 0;
        assert(es.take(0) =~= Seq::<EntryModel>::empty());
        assert(loaded_model(out@) =~= Seq::<(Seq<char>, Seq<usize>, ElementsModel)>::empty());
        while i < entries.len()
            invariant
                es == entries@.map_values(|e: SafetensorEntry| e.model()),
                dlen == data@.len(),
                n + 8 <= data@.len(),
                forall|i: int| 0 <= i < entries@.len() ==> #[trigger] entries@[i].begin <= entries@[i].end
                    && n + 8 + entries@[i].end <= data@.len(),
                i <= entries@.len(),
                spec_load_entries(data@, n as nat, es.take(i as int)) == Some(
                    Ok::<Seq<(Seq<char>, Seq<usize>, ElementsModel)>, LoadRefusal>(loaded_model(out@)),
                ),
            decreases entries@.len() - i,
        {
            let e = &entries[i];
            proof {
                assert(es.take(i + 1).drop_last() =~= es.take(i as int));
                assert(es.take(i + 1).last() == e.model());
            }
            let dt = match st_dtype(e.dtype_name.as_str()) {
                Some(d) => d,
                None => {
                    let mut m = String::from_str("Unsupported dtype in safetensors: ");
                    m.append(e.dtype_name.as_str());
                    proof {
                        lemma_load_refusal_extends(data@, n as nat, es, i as int + 1);
                    }
                    return Some(Err(OxideError::UnsupportedOperation(m)));
                },
            };
            if e.shape.len() > 8 {
                proof {
                    lemma_load_none_extends(data@, n as nat, es, i as int + 1);
                }
                return None;
            }
            let shape = Shape::new(e.shape.as_slice());
            if dt == DType::F32 || dt == DType::F16 || dt == DType::BF16 {
                if !shape.strides_fit() {
                    proof {
                        lemma_load_none_extends(data@, n as nat, es, i as int + 1);
                    }
                    return None;
                }
                let bytes = slice_subrange(data, n + 8 + e.begin, n + 8 + e.end);
                let el = if dt == DType::F32 {
                    ElementBits::F32(le_words(bytes))
                } else {
                    ElementBits::F16(le_halves(bytes))
                };
                let ghost before = out@;
                let item = (e.name.clone(), shape, el);
                out.push(item);
                proof {
                    assert(loaded_model(out@) =~= loaded_model(before).push((e.name@, shape@, el.model())));
                }
            } else {
                let mut m = String::from_str("Dtype ");
                m.append(dt.debug_name());
                m.append(" not yet implemented for loading");
                proof {
                    lemma_load_refusal_extends(data@, n as nat, es, i as int + 1);
                }
                return Some(Err(OxideError::InvalidArgument(m)));
            }
            i = i + 1;
        }
        assert(es.take(entries@.len() as int) =~= es);
        Some(Ok(out))
    }

    /// Loads every tensor of a safetensors file held in memory, in the order
    /// its header's hash map yields them. `None` where a plain reader would
    /// panic: a header writing a number too large to add to its length (the
    /// crate's own sum overflows there), or an entry that `load_entries`
    /// cannot hold. The header is read by the `safetensors` crate: when it
    /// refuses the file, the refusal is a `SerializationError` with the
    /// crate's message; otherwise every tensor of the header is loaded, in
    /// some order.
    pub fn load_from_bytes(data: &[u8], device: &Device) -> (r: Option<OxideResult<Vec<(String, Shape, ElementBits)>>>)
        ensures
            !header_numbers_fit(data@) ==> r is None,
            header_numbers_fit(data@) ==> ((r matches Some(Err(OxideError::SerializationError(_))))
                <==> safetensors_header(data@) is None),
            header_numbers_fit(data@) ==> (safetensors_header(data@) matches Some((n, ms)) ==> {
                &&& n == st_declared_len(data@)
                &&& n + 8 <= data@.len()
                &&& exists|es: Seq<EntryModel>| #[trigger] entry_multiset(es) == ms
                    && load_agrees(r, spec_load_entries(data@, n, es))
            }),
    {
        if !header_numbers_fit_check(data) {
            return None;
        }
        match read_header(data) {
            Err(m) => Some(Err(OxideError::SerializationError(m))),
            Ok((n, entries)) => {
                let r = Self::load_entries(data, n, entries.as_slice());
                let ghost es = entries@.map_values(|e: SafetensorEntry| e.model());
                assert(load_agrees(r, spec_load_entries(data@, n as nat, es)));
                assert(entry_multiset(es) == entry_multiset(es));
                r
            },
        }
    }
}

/// Once a prefix of the entries is refused, so is the whole list, alike.
proof fn lemma_load_refusal_extends(d: Seq<u8>, n: nat, es: Seq<EntryModel>, i: int)
    requires
        0 <= i <= es.len(),
        spec_load_entries(d, n, es.take(i)) matches Some(Err(_)),
    ensures
        spec_load_entries(d, n, es) == spec_load_entries(d, n, es.take(i)),
    decreases es.len() - i,
{
    if i < es.len() {
        assert(es.take(i + 1).drop_last() =~= es.take(i));
        lemma_load_refusal_extends(d, n, es, i + 1);
    } else {
        assert(es.take(i) =~= es);
    }
}

/// Once a prefix of the entries panics, so does the whole list.
proof fn lemma_load_none_extends(d: Seq<u8>, n: nat, es: Seq<EntryModel>, i: int)
    requires
        0 <= i <= es.len(),
        spec_load_entries(d, n, es.take(i)) is None,
    ensures
        spec_load_entries(d, n, es) is None,
    decreases es.len() - i,
{
    if i < es.len() {
        assert(es.take(i + 1).drop_last() =~= es.take(i));
        lemma_load_none_extends(d, n, es, i + 1);
    } else {
        assert(es.take(i) =~= es);
    }
}

} // verus!

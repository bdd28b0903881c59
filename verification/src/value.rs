//! Scalar types and tagged values.
//!
//! A [`Value`] is a pair of a [`TypeDef`] tag and a byte string holding the
//! scalar in big-endian order: four bytes for `I32`, eight for `F64` (the
//! IEEE 754 bit pattern), one for `Bool` (`0x01` true, `0x00` false) and
//! none for `Unit`.

use vstd::prelude::*;

verus! {

/// The closed set of scalar types of the language.
#[derive(Debug, Clone, Copy, PartialEq, Eq, Structural)]
pub enum TypeDef {
    Unit,
    Bool,
    I32,
    F64,
}

impl TypeDef {
    /// Byte size of a scalar of this type.
    pub open spec fn spec_size(self) -> nat {
        match self {
            TypeDef::Unit => 0,
            TypeDef::Bool => 1,
            TypeDef::I32 => 4,
            TypeDef::F64 => 8,
        }
    }

    /// Byte size of a scalar of this type.
    pub fn size(&self) -> (n: usize)
        ensures
            n == self.spec_size(),
    {
        match self {
            TypeDef::Unit => 0,
            TypeDef::Bool => 1,
            TypeDef::I32 => 4,
            TypeDef::F64 => 8,
        }
    }
}

/// Big-endian byte string of a 32-bit word.
pub open spec fn spec_u32_to_be_bytes(x: u32) -> Seq<u8> {
    seq![
        ((x >> 24) & 0xff) as u8,
        ((x >> 16) & 0xff) as u8,
        ((x >> 8) & 0xff) as u8,
        (x & 0xff) as u8,
    ]
}

/// The 32-bit word a big-endian byte string of length four denotes.
pub open spec fn spec_u32_from_be_bytes(s: Seq<u8>) -> u32
    recommends
        s.len() == 4,
{
    (((s[0] as u32) << 24) | ((s[1] as u32) << 16) | ((s[2] as u32) << 8) | (s[3] as u32)) as u32
}

/// Big-endian byte string of a 64-bit word.
pub open spec fn spec_u64_to_be_bytes(x: u64) -> Seq<u8> {
    seq![
        ((x >> 56) & 0xff) as u8,
        ((x >> 48) & 0xff) as u8,
        ((x >> 40) & 0xff) as u8,
        ((x >> 32) & 0xff) as u8,
        ((x >> 24) & 0xff) as u8,
        ((x >> 16) & 0xff) as u8,
        ((x >> 8) & 0xff) as u8,
        (x & 0xff) as u8,
    ]
}

/// The 64-bit word a big-endian byte string of length eight denotes.
pub open spec fn spec_u64_from_be_bytes(s: Seq<u8>) -> u64
    recommends
        s.len() == 8,
{
    (((s[0] as u64) << 56) | ((s[1] as u64) << 48) | ((s[2] as u64) << 40)
        | ((s[3] as u64) << 32) | ((s[4] as u64) << 24) | ((s[5] as u64) << 16)
        | ((s[6] as u64) << 8) | (s[7] as u64)) as u64
}

/// Decoding inverts encoding for 32-bit words.
pub proof fn lemma_u32_be_bytes_roundtrip(x: u32)
    ensures
        spec_u32_to_be_bytes(x).len() == 4,
        spec_u32_from_be_bytes(spec_u32_to_be_bytes(x)) == x,
{
    assert((((((x >> 24) & 0xff) as u8) as u32) << 24
        | ((((x >> 16) & 0xff) as u8) as u32) << 16
        | ((((x >> 8) & 0xff) as u8) as u32) << 8
        | (((x & 0xff) as u8) as u32)) as u32 == x) by (bit_vector);
}

/// Decoding inverts encoding for 64-bit words.
pub proof fn lemma_u64_be_bytes_roundtrip(x: u64)
    ensures
        spec_u64_to_be_bytes(x).len() == 8,
        spec_u64_from_be_bytes(spec_u64_to_be_bytes(x)) == x,
{
    assert((((((x >> 56) & 0xff) as u8) as u64) << 56
        | ((((x >> 48) & 0xff) as u8) as u64) << 48
        | ((((x >> 40) & 0xff) as u8) as u64) << 40
        | ((((x >> 32) & 0xff) as u8) as u64) << 32
        | ((((x >> 24) & 0xff) as u8) as u64) << 24
        | ((((x >> 16) & 0xff) as u8) as u64) << 16
        | ((((x >> 8) & 0xff) as u8) as u64) << 8
        | (((x & 0xff) as u8) as u64)) as u64 == x) by (bit_vector);
}

/// Big-endian byte string of a 32-bit word, executable form.
pub fn u32_to_be_bytes(x: u32) -> (s: Vec<u8>)
    ensures
        s@ == spec_u32_to_be_bytes(x),
{
    let mut s: Vec<u8> = Vec::new();
    s.push(((x >> 24) & 0xff) as u8);
    s.push(((x >> 16) & 0xff) as u8);
    s.push(((x >> 8) & 0xff) as u8);
    s.push((x & 0xff) as u8);
    proof {
        assert(s@ =~= spec_u32_to_be_bytes(x));
    }
    s
}

/// Big-endian byte string of a 64-bit word, executable form.
pub fn u64_to_be_bytes(x: u64) -> (s: Vec<u8>)
    ensures
        s@ == spec_u64_to_be_bytes(x),
{
    let mut s: Vec<u8> = Vec::new();
    s.push(((x >> 56) & 0xff) as u8);
    s.push(((x >> 48) & 0xff) as u8);
    s.push(((x >> 40) & 0xff) as u8);
    s.push(((x >> 32) & 0xff) as u8);
    s.push(((x >> 24) & 0xff) as u8);
    s.push(((x >> 16) & 0xff) as u8);
    s.push(((x >> 8) & 0xff) as u8);
    s.push((x & 0xff) as u8);
    proof {
        assert(s@ =~= spec_u64_to_be_bytes(x));
    }
    s
}

/// A plain byte buffer; the representation behind values and the
/// interpreter's scratch memory.
#[derive(Debug)]
pub struct Mem {
    pub bytes: Vec<u8>,
}

impl View for Mem {
    type V = Seq<u8>;

    open spec fn view(&self) -> Seq<u8> {
        self.bytes@
    }
}

impl PartialEq for Mem {
    fn eq(&self, other: &Mem) -> (r: bool) {
        let r: bool = self.bytes == other.bytes;
        proof {
            if r {
                assert(self@ =~= other@);
            }
        }
        r
    }
}

impl Eq for Mem {

}

impl vstd::std_specs::cmp::PartialEqSpecImpl for Mem {
    open spec fn obeys_eq_spec() -> bool {
        true
    }

    open spec fn eq_spec(&self, other: &Mem) -> bool {
        self@ == other@
    }
}

impl Mem {
    /// Wrap an owned byte buffer.
    pub fn new(bytes: Vec<u8>) -> (m: Mem)
        ensures
            m@ == bytes@,
    {
        Mem { bytes }
    }

    /// A zeroed buffer of the given size.
    pub fn of_size(initial_size: usize) -> (m: Mem)
        ensures
            m@.len() == initial_size,
            forall|i: int| 0 <= i < initial_size ==> m@[i] == 0u8,
    {
        let mut bytes: Vec<u8> = Vec::new();
        let mut i: usize = 0;
        while i < initial_size
            invariant
                i <= initial_size,
                bytes@.len() == i,
                forall|j: int| 0 <= j < i ==> bytes@[j] == 0u8,
            decreases initial_size - i,
        {
            bytes.push(0);
            i = i + 1;
        }
        Mem { bytes }
    }

    /// The default scratch buffer used for one interpreter frame.
    pub fn default() -> (m: Mem)
        ensures
            m@.len() == 1024,
            forall|i: int| 0 <= i < 1024 ==> m@[i] == 0u8,
    {
        Mem::of_size(1024)
    }

    /// Copy the whole of `src` into this buffer starting at `reg`.
    pub fn set(&mut self, reg: usize, src: &Mem)
        requires
            reg + src@.len() <= old(self)@.len(),
        ensures
            final(self)@.len() == old(self)@.len(),
            forall|i: int| 0 <= i < reg ==> final(self)@[i] == old(self)@[i],
            forall|i: int| reg <= i < reg + src@.len() ==> final(self)@[i] == src@[i - reg],
            forall|i: int|
                reg + src@.len() <= i < final(self)@.len() ==> final(self)@[i] == old(self)@[i],
    {
        let n: usize = src.bytes.len();
        let total: usize = self.bytes.len();
        let mut i: usize = 0;
        while i < n
            invariant
                n == src@.len(),
                i <= n,
                reg + n <= total,
                self@.len() == total,
                self@.len() == old(self)@.len(),
                forall|j: int| 0 <= j < reg ==> self@[j] == old(self)@[j],
                forall|j: int| reg <= j < reg + i ==> self@[j] == src@[j - reg],
                forall|j: int| reg + i <= j < self@.len() ==> self@[j] == old(self)@[j],
            decreases n - i,
        {
            let b: u8 = src.bytes[i];
            self.bytes.set(reg + i, b);
            i = i + 1;
        }
    }

    /// Read `N` bytes starting at `reg` as a fixed-size array.
    pub fn get_slice<const N: usize>(&self, reg: usize) -> (r: [u8; N])
        requires
            reg + N <= self@.len(),
        ensures
            r@ == self@.subrange(reg as int, reg + N),
    {
        let mut out: [u8; N] = vstd::array::array_fill_for_copy_types(0u8);
        let total: usize = self.bytes.len();
        let mut i: usize = 0;
        while i < N
            invariant
                i <= N,
                reg + N <= total,
                total == self@.len(),
                out@.len() == N,
                forall|j: int| 0 <= j < i ==> out@[j] == self@[reg + j],
            decreases N - i,
        {
            out[i] = self.bytes[reg + i];
            i = i + 1;
        }
        proof {
            assert(out@ =~= self@.subrange(reg as int, reg + N));
        }
        out
    }

    /// Read `def.size()` bytes starting at `reg` as a value of type `def`.
    pub fn get(&self, reg: usize, def: TypeDef) -> (v: Value)
        requires
            reg + def.spec_size() <= self@.len(),
        ensures
            v.wf(),
            v.spec_type() == def,
            v.spec_bytes() == self@.subrange(reg as int, reg + def.spec_size()),
    {
        let size: usize = def.size();
        let total: usize = self.bytes.len();
        let mut bytes: Vec<u8> = Vec::new();
        let mut i: usize = 0;
        while i < size
            invariant
                i <= size,
                reg + size <= total,
                total == self@.len(),
                bytes@.len() == i,
                forall|j: int| 0 <= j < i ==> bytes@[j] == self@[reg + j],
            decreases size - i,
        {
            bytes.push(self.bytes[reg + i]);
            i = i + 1;
        }
        proof {
            assert(bytes@ =~= self@.subrange(reg as int, reg + def.spec_size()));
        }
        Value::new(def, Mem { bytes })
    }
}

/// The mathematical reading of a [`Value`]: a scalar of one of the four
/// types, with `F64` carried as its IEEE 754 bit pattern.
pub enum ValueModel {
    Unit,
    Bool(bool),
    I32(i32),
    F64(u64),
}

/// A typed scalar: a type tag and the big-endian bytes of the scalar.
#[derive(Debug)]
pub struct Value {
    pub def: TypeDef,
    pub mem: Mem,
}

impl PartialEq for Value {
    fn eq(&self, other: &Value) -> (r: bool) {
        self.def == other.def && self.mem == other.mem
    }
}

impl Eq for Value {

}

impl vstd::std_specs::cmp::PartialEqSpecImpl for Value {
    open spec fn obeys_eq_spec() -> bool {
        true
    }

    open spec fn eq_spec(&self, other: &Value) -> bool {
        self.def == other.def && self.mem@ == other.mem@
    }
}

impl View for Value {
    type V = ValueModel;

    open spec fn view(&self) -> ValueModel {
        match self.def {
            TypeDef::Unit => ValueModel::Unit,
            TypeDef::Bool => ValueModel::Bool(self.mem@[0] == 1),
            TypeDef::I32 => ValueModel::I32(spec_u32_from_be_bytes(self.mem@) as i32),
            TypeDef::F64 => ValueModel::F64(spec_u64_from_be_bytes(self.mem@)),
        }
    }
}

impl Value {
    /// The representation is as long as the type tag demands.
    pub open spec fn wf(self) -> bool {
        self.mem@.len() == self.def.spec_size()
    }

    /// The type tag.
    pub open spec fn spec_type(self) -> TypeDef {
        self.def
    }

    /// The underlying byte string.
    pub open spec fn spec_bytes(self) -> Seq<u8> {
        self.mem@
    }

    /// Pair a type tag with its representation bytes.
    pub fn new(def: TypeDef, mem: Mem) -> (v: Value)
        requires
            mem@.len() == def.spec_size(),
        ensures
            v.wf(),
            v.spec_type() == def,
            v.spec_bytes() == mem@,
    {
        Value { def, mem }
    }

    /// Byte size of this value's representation.
    pub fn get_size(&self) -> (n: usize)
        requires
            self.wf(),
        ensures
            n == self.spec_bytes().len(),
    {
        self.get_type().size()
    }

    /// The type tag.
    pub fn get_type(&self) -> (t: TypeDef)
        ensures
            t == self.spec_type(),
    {
        self.def
    }

    /// The representation bytes.
    pub fn get_bytes(&self) -> (m: &Mem)
        ensures
            m@ == self.spec_bytes(),
    {
        &self.mem
    }
}

impl Value {
    /// Read this value as a 32-bit integer.
    pub fn as_i32(&self) -> (r: i32)
        requires
            self.wf(),
            self.spec_type() == TypeDef::I32,
        ensures
            self@ == ValueModel::I32(r),
    {
        let b0: u8 = self.mem.bytes[0];
        let b1: u8 = self.mem.bytes[1];
        let b2: u8 = self.mem.bytes[2];
        let b3: u8 = self.mem.bytes[3];
        let word: u32 = ((b0 as u32) << 24) | ((b1 as u32) << 16) | ((b2 as u32) << 8)
            | (b3 as u32);
        #[verifier::truncate] (word as i32)
    }

    /// Read this value as the bit pattern of a 64-bit float.
    pub fn as_f64_bits(&self) -> (r: u64)
        requires
            self.wf(),
            self.spec_type() == TypeDef::F64,
        ensures
            self@ == ValueModel::F64(r),
    {
        let b0: u8 = self.mem.bytes[0];
        let b1: u8 = self.mem.bytes[1];
        let b2: u8 = self.mem.bytes[2];
        let b3: u8 = self.mem.bytes[3];
        let b4: u8 = self.mem.bytes[4];
        let b5: u8 = self.mem.bytes[5];
        let b6: u8 = self.mem.bytes[6];
        let b7: u8 = self.mem.bytes[7];
        ((b0 as u64) << 56) | ((b1 as u64) << 48) | ((b2 as u64) << 40) | ((b3 as u64) << 32)
            | ((b4 as u64) << 24) | ((b5 as u64) << 16) | ((b6 as u64) << 8) | (b7 as u64)
    }

    /// Read this value as a boolean; any representation byte other than one
    /// reads as false.
    pub fn as_bool(&self) -> (r: bool)
        requires
            self.wf(),
            self.spec_type() == TypeDef::Bool,
        ensures
            self@ == ValueModel::Bool(r),
    {
        self.mem.bytes[0] == 1
    }
}

impl Value {
    /// A 32-bit integer value.
    pub fn i32(value: i32) -> (v: Value)
        ensures
            v.wf(),
            v.spec_type() == TypeDef::I32,
            v@ == ValueModel::I32(value),
            v.spec_bytes() == spec_u32_to_be_bytes(value as u32),
    {
        let word: u32 = #[verifier::truncate] (value as u32);
        let bytes: Vec<u8> = u32_to_be_bytes(word);
        proof {
            lemma_u32_be_bytes_roundtrip(word);
            assert(spec_u32_from_be_bytes(spec_u32_to_be_bytes(word)) as i32 == value)
                by (bit_vector)
                requires word == value as u32,
                    spec_u32_from_be_bytes(spec_u32_to_be_bytes(word)) == word,
            ;
        }
        Value { def: TypeDef::I32, mem: Mem { bytes } }
    }

    /// A 64-bit float value, given as its IEEE 754 bit pattern.
    pub fn f64_from_bits(bits: u64) -> (v: Value)
        ensures
            v.wf(),
            v.spec_type() == TypeDef::F64,
            v@ == ValueModel::F64(bits),
            v.spec_bytes() == spec_u64_to_be_bytes(bits),
    {
        let bytes: Vec<u8> = u64_to_be_bytes(bits);
        proof {
            lemma_u64_be_bytes_roundtrip(bits);
        }
        Value { def: TypeDef::F64, mem: Mem { bytes } }
    }

    /// A boolean value.
    pub fn bool(value: bool) -> (v: Value)
        ensures
            v.wf(),
            v.spec_type() == TypeDef::Bool,
            v@ == ValueModel::Bool(value),
            v.spec_bytes() == seq![if value { 1u8 } else { 0u8 }],
    {
        let mut bytes: Vec<u8> = Vec::new();
        bytes.push(if value { 1 } else { 0 });
        proof {
            assert(bytes@ =~= seq![if value { 1u8 } else { 0u8 }]);
        }
        Value { def: TypeDef::Bool, mem: Mem { bytes } }
    }

    /// The unit value.
    pub fn unit() -> (v: Value)
        ensures
            v.wf(),
            v.spec_type() == TypeDef::Unit,
            v@ == ValueModel::Unit,
    {
        Value { def: TypeDef::Unit, mem: Mem { bytes: Vec::new() } }
    }
}

} // verus!

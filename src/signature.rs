use crate::errors::{ParseReason, WError};
use vstd::prelude::*;

verus! {

/// The four little-endian bytes of `x`.
pub open spec fn le32(x: u32) -> Seq<u8> {
    seq![
        (x % 256) as u8,
        ((x / 256) % 256) as u8,
        ((x / 65536) % 256) as u8,
        (x / 16777216) as u8,
    ]
}

/// The number that four little-endian bytes hold.
pub open spec fn le32_value(b: Seq<u8>) -> u32
    recommends
        b.len() >= 4,
{
    (b[0] + 256 * b[1] + 65536 * b[2] + 16777216 * b[3]) as u32
}

/// The self-describing wire form `alg_id ‖ raw` of keys and signatures.
pub open spec fn wire_form(alg_id: u32, raw: Seq<u8>) -> Seq<u8> {
    le32(alg_id) + raw
}

pub proof fn lemma_le32_value(x: u32)
    ensures
        le32_value(le32(x)) == x,
{
    let b = le32(x);
    assert(b[0] + 256 * b[1] + 65536 * b[2] + 16777216 * b[3] == x) by (nonlinear_arith)
        requires
            b[0] == x % 256,
            b[1] == (x / 256) % 256,
            b[2] == (x / 65536) % 256,
            b[3] == x / 16777216,
            0 <= x < 0x1_0000_0000,
    ;
}

/// Writes `x` as four little-endian bytes at the end of `out`.
pub fn push_le32(out: &mut Vec<u8>, x: u32)
    ensures
        final(out)@ == old(out)@ + le32(x),
{
    out.push((x % 256) as u8);
    out.push(((x / 256) % 256) as u8);
    out.push(((x / 65536) % 256) as u8);
    out.push((x / 16777216) as u8);
    assert(final(out)@ =~= old(out)@ + le32(x));
}

/// Reads four little-endian bytes from the start of `b`.
pub fn read_le32(b: &[u8]) -> (r: u32)
    requires
        b@.len() >= 4,
    ensures
        r == le32_value(b@),
{
    let v: u64 = b[0] as u64 + 256 * (b[1] as u64) + 65536 * (b[2] as u64) + 16777216 * (b[3] as u64);
    v as u32
}

/// Copies `b[from..]` into a new vector.
fn copy_from(b: &[u8], from: usize) -> (r: Vec<u8>)
    requires
        from <= b@.len(),
    ensures
        r@ == b@.subrange(from as int, b@.len() as int),
{
    let mut r: Vec<u8> = Vec::new();
    let mut i: usize = from;
    while i < b.len()
        invariant
            from <= i <= b@.len(),
            r@ == b@.subrange(from as int, i as int),
        decreases b@.len() - i,
    {
        r.push(b[i]);
        i = i + 1;
        assert(r@ =~= b@.subrange(from as int, i as int));
    }
    r
}

/// Copies `b[..n]` into a new vector.
pub fn prefix(b: &[u8], n: usize) -> (r: Vec<u8>)
    requires
        n <= b@.len(),
    ensures
        r@ == b@.subrange(0, n as int),
{
    let mut r: Vec<u8> = Vec::new();
    let mut i: usize = 0;
    while i < n
        invariant
            i <= n <= b@.len(),
            r@ == b@.subrange(0, i as int),
        decreases n - i,
    {
        r.push(b[i]);
        i = i + 1;
        assert(r@ =~= b@.subrange(0, i as int));
    }
    r
}

/// Appends all of `b` to `out`.
pub fn push_all(out: &mut Vec<u8>, b: &[u8])
    ensures
        final(out)@ == old(out)@ + b@,
{
    let mut i: usize = 0;
    while i < b.len()
        invariant
            i <= b@.len(),
            out@ == old(out)@ + b@.subrange(0, i as int),
        decreases b@.len() - i,
    {
        out.push(b[i]);
        i = i + 1;
        assert(out@ =~= old(out)@ + b@.subrange(0, i as int));
    }
    assert(b@.subrange(0, b@.len() as int) =~= b@);
}

/// Splits an encoded `alg_id ‖ raw` blob; fails when it is no longer than
/// the id itself.
fn split_wire(bytes: &[u8]) -> (r: Result<(u32, Vec<u8>), WError>)
    ensures
        bytes@.len() <= 4 ==> r == Err::<(u32, Vec<u8>), WError>(WError::ParseError(ParseReason::ShortEncoding)),
        bytes@.len() > 4 ==> r is Ok && r->Ok_0.0 == le32_value(bytes@)
            && r->Ok_0.1@ == bytes@.subrange(4, bytes@.len() as int),
{
    if bytes.len() <= 4 {
        return Err(WError::ParseError(ParseReason::ShortEncoding));
    }
    let alg_id = read_le32(bytes);
    let raw = copy_from(bytes, 4);
    Ok((alg_id, raw))
}

/// A signature: the id of the algorithm that made it and its raw bytes.
#[derive(Debug)]
pub struct Signature {
    alg_id: u32,
    raw: Vec<u8>,
}

impl Signature {
    pub closed spec fn spec_alg_id(&self) -> u32 {
        self.alg_id
    }

    pub closed spec fn spec_raw(&self) -> Seq<u8> {
        self.raw@
    }

    pub fn new(alg_id: u32, raw: Vec<u8>) -> (r: Self)
        ensures
            r.spec_alg_id() == alg_id,
            r.spec_raw() == raw@,
    {
        Signature { alg_id, raw }
    }

    pub fn alg_id(&self) -> (r: u32)
        ensures
            r == self.spec_alg_id(),
    {
        self.alg_id
    }

    pub fn raw(&self) -> (r: &[u8])
        ensures
            r@ == self.spec_raw(),
    {
        self.raw.as_slice()
    }

    /// The wire form `alg_id ‖ raw`.
    pub fn to_bytes(&self) -> (r: Vec<u8>)
        ensures
            r@ == wire_form(self.spec_alg_id(), self.spec_raw()),
    {
        let mut bytes: Vec<u8> = Vec::new();
        push_le32(&mut bytes, self.alg_id);
        push_all(&mut bytes, self.raw.as_slice());
        bytes
    }

    /// Decodes the wire form; a blob of four bytes or fewer is refused.
    pub fn from_bytes(bytes: &[u8]) -> (r: Result<Self, WError>)
        ensures
            bytes@.len() <= 4 ==> r == Err::<Self, WError>(WError::ParseError(ParseReason::ShortEncoding)),
            bytes@.len() > 4 ==> r is Ok && r->Ok_0.spec_alg_id() == le32_value(bytes@)
                && r->Ok_0.spec_raw() == bytes@.subrange(4, bytes@.len() as int),
    {
        let (alg_id, raw) = split_wire(bytes)?;
        Ok(Signature { alg_id, raw })
    }
}

/// A key of either kind, as decoded from its wire form.
pub struct AnyKey {
    alg_id: u32,
    raw: Vec<u8>,
}

impl AnyKey {
    pub closed spec fn spec_alg_id(&self) -> u32 {
        self.alg_id
    }

    pub closed spec fn spec_raw(&self) -> Seq<u8> {
        self.raw@
    }

    pub fn new(alg_id: u32, raw: Vec<u8>) -> (r: Self)
        ensures
            r.spec_alg_id() == alg_id,
            r.spec_raw() == raw@,
    {
        AnyKey { alg_id, raw }
    }

    /// Decodes the wire form `alg_id ‖ raw`; a blob of four bytes or fewer is
    /// refused.
    pub fn from_bytes(bytes: &[u8]) -> (r: Result<Self, WError>)
        ensures
            bytes@.len() <= 4 ==> r == Err::<Self, WError>(WError::ParseError(ParseReason::ShortEncoding)),
            bytes@.len() > 4 ==> r is Ok && r->Ok_0.spec_alg_id() == le32_value(bytes@)
                && r->Ok_0.spec_raw() == bytes@.subrange(4, bytes@.len() as int),
    {
        let (alg_id, raw) = split_wire(bytes)?;
        Ok(AnyKey::new(alg_id, raw))
    }
}

/// A public key.
#[derive(Debug)]
pub struct PublicKey {
    alg_id: u32,
    raw: Vec<u8>,
}

impl PublicKey {
    pub closed spec fn spec_alg_id(&self) -> u32 {
        self.alg_id
    }

    pub closed spec fn spec_raw(&self) -> Seq<u8> {
        self.raw@
    }

    pub fn new(alg_id: u32, raw: Vec<u8>) -> (r: Self)
        ensures
            r.spec_alg_id() == alg_id,
            r.spec_raw() == raw@,
    {
        PublicKey { alg_id, raw }
    }

    pub fn alg_id(&self) -> (r: u32)
        ensures
            r == self.spec_alg_id(),
    {
        self.alg_id
    }

    pub fn raw(&self) -> (r: &[u8])
        ensures
            r@ == self.spec_raw(),
    {
        self.raw.as_slice()
    }

    /// The wire form `alg_id ‖ raw`.
    pub fn to_bytes(&self) -> (r: Vec<u8>)
        ensures
            r@ == wire_form(self.spec_alg_id(), self.spec_raw()),
    {
        let mut bytes: Vec<u8> = Vec::new();
        push_le32(&mut bytes, self.alg_id);
        push_all(&mut bytes, self.raw.as_slice());
        bytes
    }

    /// Decodes the wire form; a blob of four bytes or fewer is refused.
    pub fn from_bytes(bytes: &[u8]) -> (r: Result<Self, WError>)
        ensures
            bytes@.len() <= 4 ==> r == Err::<Self, WError>(WError::ParseError(ParseReason::ShortEncoding)),
            bytes@.len() > 4 ==> r is Ok && r->Ok_0.spec_alg_id() == le32_value(bytes@)
                && r->Ok_0.spec_raw() == bytes@.subrange(4, bytes@.len() as int),
    {
        let key = AnyKey::from_bytes(bytes)?;
        Ok(PublicKey { alg_id: key.alg_id, raw: key.raw })
    }
}

/// A secret key.
#[derive(Debug)]
pub struct SecretKey {
    alg_id: u32,
    raw: Vec<u8>,
}

impl SecretKey {
    pub closed spec fn spec_alg_id(&self) -> u32 {
        self.alg_id
    }

    pub closed spec fn spec_raw(&self) -> Seq<u8> {
        self.raw@
    }

    pub fn new(alg_id: u32, raw: Vec<u8>) -> (r: Self)
        ensures
            r.spec_alg_id() == alg_id,
            r.spec_raw() == raw@,
    {
        SecretKey { alg_id, raw }
    }

    pub fn alg_id(&self) -> (r: u32)
        ensures
            r == self.spec_alg_id(),
    {
        self.alg_id
    }

    pub fn raw(&self) -> (r: &[u8])
        ensures
            r@ == self.spec_raw(),
    {
        self.raw.as_slice()
    }

    /// The wire form `alg_id ‖ raw`.
    pub fn to_bytes(&self) -> (r: Vec<u8>)
        ensures
            r@ == wire_form(self.spec_alg_id(), self.spec_raw()),
    {
        let mut bytes: Vec<u8> = Vec::new();
        push_le32(&mut bytes, self.alg_id);
        push_all(&mut bytes, self.raw.as_slice());
        bytes
    }

    /// Decodes the wire form; a blob of four bytes or fewer is refused.
    pub fn from_bytes(bytes: &[u8]) -> (r: Result<Self, WError>)
        ensures
            bytes@.len() <= 4 ==> r == Err::<Self, WError>(WError::ParseError(ParseReason::ShortEncoding)),
            bytes@.len() > 4 ==> r is Ok && r->Ok_0.spec_alg_id() == le32_value(bytes@)
                && r->Ok_0.spec_raw() == bytes@.subrange(4, bytes@.len() as int),
    {
        let key = AnyKey::from_bytes(bytes)?;
        Ok(SecretKey { alg_id: key.alg_id, raw: key.raw })
    }
}

/// A public key and a secret key of one algorithm.
#[derive(Debug)]
pub struct KeyPair {
    pub alg_id: u32,
    pub pk: PublicKey,
    pub sk: SecretKey,
}

impl KeyPair {
    /// Both keys belong to the algorithm of the pair.
    pub open spec fn wf(&self) -> bool {
        &&& self.pk.spec_alg_id() == self.alg_id
        &&& self.sk.spec_alg_id() == self.alg_id
    }

    /// Pairs two keys of the same algorithm.
    pub fn new(alg_id: u32, pk: PublicKey, sk: SecretKey) -> (r: Self)
        requires
            pk.spec_alg_id() == sk.spec_alg_id(),
        ensures
            r.alg_id == alg_id,
            r.pk == pk,
            r.sk == sk,
    {
        KeyPair { alg_id, pk, sk }
    }
}

} // verus!

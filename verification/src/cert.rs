use vstd::prelude::*;
use vstd::string::StrSliceExecFns;
use vstd::utf8::encode_utf8;

verus! {

/// The identity a certificate asserts: the actor's name, and its home
/// server's domain split into the domain proper and the top-level segment.
#[derive(Clone, PartialEq, Eq, Debug, Hash)]
pub struct FederationId {
    pub actor_name: String,
    pub domain: String,
    pub tld: String,
}

/// The signature algorithms certificates may be signed with.
#[allow(non_camel_case_types)]
#[derive(Clone, Copy, PartialEq, Eq, Debug, Hash)]
pub enum SignatureAlgorithm {
    ECDSA_SECP256R1_SHA256,
    ECDSA_SECP384R1_SHA384,
    ECDSA_SECP521R1_SHA512,
    ED25519,
    ED448,
}

/// A signature value: opaque bytes (held as text) plus the algorithm that
/// produced them.
pub struct Signature {
    pub(crate) signature: String,
    pub algorithm: SignatureAlgorithm,
}

impl View for Signature {
    type V = Seq<char>;

    closed spec fn view(&self) -> Seq<char> {
        self.signature@
    }
}

impl Signature {
    /// The algorithm tag, for contracts.
    pub closed spec fn alg(&self) -> SignatureAlgorithm {
        self.algorithm
    }

    /// Wrap a signature value and its algorithm.
    pub fn new(signature: String, algorithm: SignatureAlgorithm) -> (s: Signature)
        ensures
            s@ == signature@,
            s.alg() == algorithm,
    {
        Signature { signature, algorithm }
    }

    /// The signature value as bytes.
    pub fn as_bytes(&self) -> (r: &[u8])
        ensures
            r@ == encode_utf8(self@),
    {
        self.signature.as_str().as_bytes()
    }

    /// The signature value as text.
    pub fn as_str(&self) -> (r: &str)
        ensures
            r@ == self@,
    {
        self.signature.as_str()
    }
}

/// A certificate-signing request: the fields the requester asserts, before
/// any signature exists.
pub struct IdCsr {
    pub pub_key: String,
    pub federation_id: FederationId,
    pub session_id: String,
    pub expiry: Option<u64>,
}

/// The to-be-signed content of an identity certificate.
pub struct IdCertTBS {
    pub pub_key: String,
    pub federation_id: FederationId,
    pub session_id: String,
    pub expiry: u64,
    pub serial: String,
}

/// A signed identity certificate.
pub struct IdCert {
    pub pub_key: String,
    pub federation_id: FederationId,
    pub session_id: String,
    pub expiry: u64,
    pub serial: String,
    pub signature: Signature,
}

/// The big-endian bytes of a 64-bit integer, most significant first.
pub open spec fn u64_be_bytes(x: u64) -> Seq<u8> {
    seq![
        (x >> 56) as u8,
        (x >> 48) as u8,
        (x >> 40) as u8,
        (x >> 32) as u8,
        (x >> 24) as u8,
        (x >> 16) as u8,
        (x >> 8) as u8,
        x as u8,
    ]
}

/// The digest input an identity certificate is signed over: the UTF-8 bytes
/// of its text fields and the big-endian expiry, concatenated in order.
pub open spec fn tbs_bytes(t: IdCertTBS) -> Seq<u8> {
    encode_utf8(t.pub_key@) + encode_utf8(t.federation_id.actor_name@) + encode_utf8(
        t.federation_id.domain@,
    ) + encode_utf8(t.federation_id.tld@) + encode_utf8(t.session_id@) + u64_be_bytes(t.expiry)
        + encode_utf8(t.serial@)
}

fn push_str_bytes(bytes: &mut Vec<u8>, s: &str)
    ensures
        final(bytes)@ == old(bytes)@ + encode_utf8(s@),
{
    let v = s.as_bytes_vec();
    let mut i: usize = 0;
    while i < v.len()
        invariant
            i <= v@.len(),
            v@ == encode_utf8(s@),
            bytes@ == old(bytes)@ + v@.take(i as int),
        decreases v@.len() - i,
    {
        let b = v[i];
        bytes.push(b);
        proof {
            assert(bytes@ =~= old(bytes)@ + v@.take(i as int + 1));
        }
        i += 1;
    }
    proof {
        assert(v@.take(v@.len() as int) =~= v@);
    }
}

fn u64_to_be_bytes(x: u64) -> (r: Vec<u8>)
    ensures
        r@ == u64_be_bytes(x),
{
    let mut r: Vec<u8> = Vec::new();
    r.push(#[verifier::truncate] ((x >> 56) as u8));
    r.push(#[verifier::truncate] ((x >> 48) as u8));
    r.push(#[verifier::truncate] ((x >> 40) as u8));
    r.push(#[verifier::truncate] ((x >> 32) as u8));
    r.push(#[verifier::truncate] ((x >> 24) as u8));
    r.push(#[verifier::truncate] ((x >> 16) as u8));
    r.push(#[verifier::truncate] ((x >> 8) as u8));
    r.push(#[verifier::truncate] (x as u8));
    proof {
        assert(r@ =~= u64_be_bytes(x));
    }
    r
}

impl IdCertTBS {
    /// The bytes this certificate content is signed over.
    pub fn to_bytes(&self) -> (r: Vec<u8>)
        ensures
            r@ == tbs_bytes(*self),
    {
        let mut bytes: Vec<u8> = Vec::new();
        push_str_bytes(&mut bytes, self.pub_key.as_str());
        push_str_bytes(&mut bytes, self.federation_id.actor_name.as_str());
        push_str_bytes(&mut bytes, self.federation_id.domain.as_str());
        push_str_bytes(&mut bytes, self.federation_id.tld.as_str());
        push_str_bytes(&mut bytes, self.session_id.as_str());
        let expiry_bytes = u64_to_be_bytes(self.expiry);
        let mut i: usize = 0;
        let ghost before = bytes@;
        while i < expiry_bytes.len()
            invariant
                i <= expiry_bytes@.len(),
                bytes@ == before + expiry_bytes@.take(i as int),
            decreases expiry_bytes@.len() - i,
        {
            let b = expiry_bytes[i];
            bytes.push(b);
            proof {
                assert(bytes@ =~= before + expiry_bytes@.take(i as int + 1));
            }
            i += 1;
        }
        proof {
            assert(expiry_bytes@.take(expiry_bytes@.len() as int) =~= expiry_bytes@);
        }
        push_str_bytes(&mut bytes, self.serial.as_str());
        proof {
            assert(bytes@ =~= tbs_bytes(*self));
        }
        bytes
    }

    /// Attach a signature, yielding the signed certificate with the same
    /// fields.
    pub fn into_cert(self, signature: Signature) -> (c: IdCert)
        ensures
            c.pub_key == self.pub_key,
            c.federation_id == self.federation_id,
            c.session_id == self.session_id,
            c.expiry == self.expiry,
            c.serial == self.serial,
            c.signature@ == signature@,
            c.signature.alg() == signature.alg(),
    {
        IdCert {
            pub_key: self.pub_key,
            federation_id: self.federation_id,
            session_id: self.session_id,
            expiry: self.expiry,
            serial: self.serial,
            signature,
        }
    }
}

impl IdCsr {
    /// The to-be-signed certificate content this request asks for: the same
    /// fields, the expiry defaulted to 0 when absent, and an empty serial.
    pub fn to_cert_tbs(&self) -> (t: IdCertTBS)
        ensures
            t.pub_key == self.pub_key,
            t.federation_id.actor_name == self.federation_id.actor_name,
            t.federation_id.domain == self.federation_id.domain,
            t.federation_id.tld == self.federation_id.tld,
            t.session_id == self.session_id,
            t.expiry == (match self.expiry {
                Some(e) => e,
                None => 0u64,
            }),
            t.serial@ == Seq::<char>::empty(),
    {
        let expiry: u64 = match self.expiry {
            Some(e) => e,
            None => 0,
        };
        IdCertTBS {
            pub_key: self.pub_key.clone(),
            federation_id: FederationId {
                actor_name: self.federation_id.actor_name.clone(),
                domain: self.federation_id.domain.clone(),
                tld: self.federation_id.tld.clone(),
            },
            session_id: self.session_id.clone(),
            expiry,
            serial: String::new(),
        }
    }
}

} // verus!

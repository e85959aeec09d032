use vstd::prelude::*;

verus! {

/// One typed attribute inside a relative component of a Distinguished Name:
/// the attribute-type object identifier, as its integer arcs, and the raw
/// byte value the attribute carries.
pub struct AttributeTypeAndValue {
    pub oid: Vec<u64>,
    pub value: Vec<u8>,
}

/// The mathematical content of an attribute: its type's OID arcs and its
/// value bytes.
pub struct AttrView {
    pub oid: Seq<u64>,
    pub value: Seq<u8>,
}

impl View for AttributeTypeAndValue {
    type V = AttrView;

    open spec fn view(&self) -> AttrView {
        AttrView { oid: self.oid@, value: self.value@ }
    }
}

/// Attribute type `commonName`, OID 2.5.4.3.
pub open spec fn oid_rdn_common_name() -> Seq<u64> {
    seq![2u64, 5u64, 4u64, 3u64]
}

/// Attribute type `domainComponent`, OID 0.9.2342.19200300.100.1.25.
pub open spec fn oid_rdn_domain_component() -> Seq<u64> {
    seq![0u64, 9u64, 2342u64, 19200300u64, 100u64, 1u64, 25u64]
}

/// Attribute type `uid`, OID 0.9.2342.19200300.100.1.1.
pub open spec fn oid_rdn_uid() -> Seq<u64> {
    seq![0u64, 9u64, 2342u64, 19200300u64, 100u64, 1u64, 1u64]
}

/// Attribute type `uniqueIdentifier`, OID 0.9.2342.19200300.100.1.44.
pub open spec fn oid_rdn_unique_identifier() -> Seq<u64> {
    seq![0u64, 9u64, 2342u64, 19200300u64, 100u64, 1u64, 44u64]
}

/// How the validator classifies one attribute by its type identifier.
/// Attribute types it knows nothing about are ignored.
#[derive(Clone, Copy, Debug, PartialEq, Eq, Structural)]
pub enum AttrKind {
    CommonName,
    DomainComponent,
    Uid,
    UniqueIdentifier,
    Ignored,
}

pub open spec fn kind_of_oid(oid: Seq<u64>) -> AttrKind {
    if oid == oid_rdn_uid() {
        AttrKind::Uid
    } else if oid == oid_rdn_unique_identifier() {
        AttrKind::UniqueIdentifier
    } else if oid == oid_rdn_common_name() {
        AttrKind::CommonName
    } else if oid == oid_rdn_domain_component() {
        AttrKind::DomainComponent
    } else {
        AttrKind::Ignored
    }
}

pub open spec fn kind_of(a: AttrView) -> AttrKind {
    kind_of_oid(a.oid)
}

/// Classify an attribute-type identifier against the four recognized types.
pub fn attr_kind(oid: &Vec<u64>) -> (k: AttrKind)
    ensures
        k == kind_of_oid(oid@),
{
    if oid.len() == 4 {
        if oid[0] == 2 && oid[1] == 5 && oid[2] == 4 && oid[3] == 3 {
            proof {
                assert(oid@ =~= oid_rdn_common_name());
            }
            return AttrKind::CommonName;
        }
    } else if oid.len() == 7 && oid[0] == 0 && oid[1] == 9 && oid[2] == 2342 && oid[3] == 19200300
        && oid[4] == 100 && oid[5] == 1 {
        if oid[6] == 1 {
            proof {
                assert(oid@ =~= oid_rdn_uid());
            }
            return AttrKind::Uid;
        }
        if oid[6] == 44 {
            proof {
                assert(oid@ =~= oid_rdn_unique_identifier());
            }
            return AttrKind::UniqueIdentifier;
        }
        if oid[6] == 25 {
            proof {
                assert(oid@ =~= oid_rdn_domain_component());
            }
            return AttrKind::DomainComponent;
        }
    }
    proof {
        assert(oid@ != oid_rdn_uid());
        assert(oid@ != oid_rdn_unique_identifier());
        assert(oid@ != oid_rdn_common_name());
        assert(oid@ != oid_rdn_domain_component());
    }
    AttrKind::Ignored
}

impl AttributeTypeAndValue {
    /// Build an attribute from its OID arcs and value bytes.
    pub fn new(oid: Vec<u64>, value: Vec<u8>) -> (a: AttributeTypeAndValue)
        ensures
            a@.oid == oid@,
            a@.value == value@,
    {
        AttributeTypeAndValue { oid, value }
    }
}

} // verus!
